//! The relational store model.
//!
//! The pipeline's correctness rests on the store's primary-key uniqueness, so
//! the store is modelled here as append-only tables with exactly that
//! guarantee: every `insert_..._if_not_present` collapses a duplicate key
//! into the non-error outcome `Exists`, and child rows (victim, attacker,
//! position) can only be inserted for a killmail that is already present.
//!
//! Well-formedness (`wf`) captures the store invariants: unique primary
//! keys, surrogate keys equal to the row's table index, and every child row
//! referencing an existing killmail.

use vstd::prelude::*;

use crate::entity::{
    AllianceRow, AttackerRow, CharacterRow, CorporationRow, EsiCategoryRow, EsiGroupRow,
    EsiTypeRow, FactionRow, KillmailRow, PositionRow, VictimRow,
};

verus! {

/// Outcome of an idempotent insert: the row was newly created, or a row with
/// the same primary key was already present.
#[derive(Clone, Copy, PartialEq, Eq, Structural, Debug)]
pub enum CreateOrExist {
    Created,
    Exists,
}

/// A store failure as the writer sees it: a duplicate-key report, which is
/// not a real error, or a transient failure, which is retried up to a bound.
#[derive(Clone, Copy, PartialEq, Eq, Structural, Debug)]
pub enum DbError {
    DuplicateEntry,
    Transient,
}

/// Whether a store failure is the duplicate-key signal.
pub fn is_duplicate_err(err: &DbError) -> (r: bool)
    ensures
        r == (err is DuplicateEntry),
{
    match err {
        DbError::DuplicateEntry => true,
        DbError::Transient => false,
    }
}

/// The relational store: one append-only table per entity.
pub struct Store {
    pub killmails: Vec<KillmailRow>,
    pub victims: Vec<VictimRow>,
    pub attackers: Vec<AttackerRow>,
    pub positions: Vec<PositionRow>,
    pub characters: Vec<CharacterRow>,
    pub alliances: Vec<AllianceRow>,
    pub corporations: Vec<CorporationRow>,
    pub factions: Vec<FactionRow>,
    pub esi_categories: Vec<EsiCategoryRow>,
    pub esi_groups: Vec<EsiGroupRow>,
    pub esi_types: Vec<EsiTypeRow>,
}

/// A victim row with its surrogate key assigned.
pub open spec fn victim_with_id(v: VictimRow, id: u64) -> VictimRow {
    VictimRow { victim_id: id, ..v }
}

/// An attacker row with its surrogate key assigned.
pub open spec fn attacker_with_id(a: AttackerRow, id: u64) -> AttackerRow {
    AttackerRow { attacker_id: id, ..a }
}

/// A position row with its surrogate key assigned.
pub open spec fn position_with_id(p: PositionRow, id: u64) -> PositionRow {
    PositionRow { position_id: id, ..p }
}

/// The attacker rows of a batch with surrogate keys assigned from `base` on.
pub open spec fn attackers_with_ids(items: Seq<AttackerRow>, base: int) -> Seq<AttackerRow> {
    Seq::new(items.len(), |j: int| attacker_with_id(items[j], (base + j) as u64))
}

impl Store {
    /// Whether a killmail with this id is present.
    pub open spec fn has_killmail(self, id: u64) -> bool {
        exists|i: int| 0 <= i < self.killmails@.len() && self.killmails@[i].killmail_id == id
    }

    /// Whether a character with this id is present.
    pub open spec fn has_character(self, id: u64) -> bool {
        exists|i: int| 0 <= i < self.characters@.len() && self.characters@[i].character_id == id
    }

    /// Whether an alliance with this id is present.
    pub open spec fn has_alliance(self, id: u64) -> bool {
        exists|i: int| 0 <= i < self.alliances@.len() && self.alliances@[i].alliance_id == id
    }

    /// Whether a corporation with this id is present.
    pub open spec fn has_corporation(self, id: u64) -> bool {
        exists|i: int|
            0 <= i < self.corporations@.len() && self.corporations@[i].corporation_id == id
    }

    /// Whether a faction with this id is present.
    pub open spec fn has_faction(self, id: u64) -> bool {
        exists|i: int| 0 <= i < self.factions@.len() && self.factions@[i].faction_id == id
    }

    /// Whether a category with this id is present.
    pub open spec fn has_category(self, id: u64) -> bool {
        exists|i: int|
            0 <= i < self.esi_categories@.len() && self.esi_categories@[i].category_id == id
    }

    /// Whether a group with this id is present.
    pub open spec fn has_group(self, id: u64) -> bool {
        exists|i: int| 0 <= i < self.esi_groups@.len() && self.esi_groups@[i].group_id == id
    }

    /// Whether an item type with this id is present.
    pub open spec fn has_type(self, id: u64) -> bool {
        exists|i: int| 0 <= i < self.esi_types@.len() && self.esi_types@[i].type_id == id
    }

    /// Killmail primary keys are unique.
    pub open spec fn killmail_keys_unique(self) -> bool {
        forall|i: int, j: int|
            0 <= i < j < self.killmails@.len() ==> self.killmails@[i].killmail_id
                != self.killmails@[j].killmail_id
    }

    /// Reference-entity and taxonomy primary keys are unique.
    pub open spec fn entity_keys_unique(self) -> bool {
        &&& forall|i: int, j: int|
            0 <= i < j < self.characters@.len() ==> self.characters@[i].character_id
                != self.characters@[j].character_id
        &&& forall|i: int, j: int|
            0 <= i < j < self.alliances@.len() ==> self.alliances@[i].alliance_id
                != self.alliances@[j].alliance_id
        &&& forall|i: int, j: int|
            0 <= i < j < self.corporations@.len() ==> self.corporations@[i].corporation_id
                != self.corporations@[j].corporation_id
        &&& forall|i: int, j: int|
            0 <= i < j < self.factions@.len() ==> self.factions@[i].faction_id
                != self.factions@[j].faction_id
        &&& forall|i: int, j: int|
            0 <= i < j < self.esi_categories@.len() ==> self.esi_categories@[i].category_id
                != self.esi_categories@[j].category_id
        &&& forall|i: int, j: int|
            0 <= i < j < self.esi_groups@.len() ==> self.esi_groups@[i].group_id
                != self.esi_groups@[j].group_id
        &&& forall|i: int, j: int|
            0 <= i < j < self.esi_types@.len() ==> self.esi_types@[i].type_id
                != self.esi_types@[j].type_id
    }

    /// Child surrogate keys equal the row's table index.
    pub open spec fn surrogate_keys_sequential(self) -> bool {
        &&& forall|i: int|
            0 <= i < self.victims@.len() ==> (#[trigger] self.victims@[i]).victim_id == i as u64
        &&& forall|i: int|
            0 <= i < self.attackers@.len() ==> (#[trigger] self.attackers@[i]).attacker_id
                == i as u64
        &&& forall|i: int|
            0 <= i < self.positions@.len() ==> (#[trigger] self.positions@[i]).position_id
                == i as u64
    }

    /// Every child row references a killmail that is present: no victim,
    /// attacker or position exists for a killmail absent from the store.
    pub open spec fn children_have_killmail(self) -> bool {
        &&& forall|i: int|
            0 <= i < self.victims@.len() ==> self.has_killmail(
                (#[trigger] self.victims@[i]).killmail_id,
            )
        &&& forall|i: int|
            0 <= i < self.attackers@.len() ==> self.has_killmail(
                (#[trigger] self.attackers@[i]).killmail_id,
            )
        &&& forall|i: int|
            0 <= i < self.positions@.len() ==> self.has_killmail(
                (#[trigger] self.positions@[i]).killmail_id,
            )
    }

    /// The store invariant.
    pub open spec fn wf(self) -> bool {
        &&& self.killmail_keys_unique()
        &&& self.entity_keys_unique()
        &&& self.surrogate_keys_sequential()
        &&& self.children_have_killmail()
    }

    /// All tables but the killmails agree with `o`.
    pub open spec fn same_except_killmails(self, o: Store) -> bool {
        &&& self.victims == o.victims
        &&& self.attackers == o.attackers
        &&& self.positions == o.positions
        &&& self.characters == o.characters
        &&& self.alliances == o.alliances
        &&& self.corporations == o.corporations
        &&& self.factions == o.factions
        &&& self.esi_categories == o.esi_categories
        &&& self.esi_groups == o.esi_groups
        &&& self.esi_types == o.esi_types
    }

    /// All tables but the victims agree with `o`.
    pub open spec fn same_except_victims(self, o: Store) -> bool {
        &&& self.killmails == o.killmails
        &&& self.attackers == o.attackers
        &&& self.positions == o.positions
        &&& self.characters == o.characters
        &&& self.alliances == o.alliances
        &&& self.corporations == o.corporations
        &&& self.factions == o.factions
        &&& self.esi_categories == o.esi_categories
        &&& self.esi_groups == o.esi_groups
        &&& self.esi_types == o.esi_types
    }

    /// All tables but the attackers agree with `o`.
    pub open spec fn same_except_attackers(self, o: Store) -> bool {
        &&& self.killmails == o.killmails
        &&& self.victims == o.victims
        &&& self.positions == o.positions
        &&& self.characters == o.characters
        &&& self.alliances == o.alliances
        &&& self.corporations == o.corporations
        &&& self.factions == o.factions
        &&& self.esi_categories == o.esi_categories
        &&& self.esi_groups == o.esi_groups
        &&& self.esi_types == o.esi_types
    }

    /// All tables but the positions agree with `o`.
    pub open spec fn same_except_positions(self, o: Store) -> bool {
        &&& self.killmails == o.killmails
        &&& self.victims == o.victims
        &&& self.attackers == o.attackers
        &&& self.characters == o.characters
        &&& self.alliances == o.alliances
        &&& self.corporations == o.corporations
        &&& self.factions == o.factions
        &&& self.esi_categories == o.esi_categories
        &&& self.esi_groups == o.esi_groups
        &&& self.esi_types == o.esi_types
    }

    /// All tables but the characters agree with `o`.
    pub open spec fn same_except_characters(self, o: Store) -> bool {
        &&& self.killmails == o.killmails
        &&& self.victims == o.victims
        &&& self.attackers == o.attackers
        &&& self.positions == o.positions
        &&& self.alliances == o.alliances
        &&& self.corporations == o.corporations
        &&& self.factions == o.factions
        &&& self.esi_categories == o.esi_categories
        &&& self.esi_groups == o.esi_groups
        &&& self.esi_types == o.esi_types
    }

    /// All tables but the alliances agree with `o`.
    pub open spec fn same_except_alliances(self, o: Store) -> bool {
        &&& self.killmails == o.killmails
        &&& self.victims == o.victims
        &&& self.attackers == o.attackers
        &&& self.positions == o.positions
        &&& self.characters == o.characters
        &&& self.corporations == o.corporations
        &&& self.factions == o.factions
        &&& self.esi_categories == o.esi_categories
        &&& self.esi_groups == o.esi_groups
        &&& self.esi_types == o.esi_types
    }

    /// All tables but the corporations agree with `o`.
    pub open spec fn same_except_corporations(self, o: Store) -> bool {
        &&& self.killmails == o.killmails
        &&& self.victims == o.victims
        &&& self.attackers == o.attackers
        &&& self.positions == o.positions
        &&& self.characters == o.characters
        &&& self.alliances == o.alliances
        &&& self.factions == o.factions
        &&& self.esi_categories == o.esi_categories
        &&& self.esi_groups == o.esi_groups
        &&& self.esi_types == o.esi_types
    }

    /// All tables but the factions agree with `o`.
    pub open spec fn same_except_factions(self, o: Store) -> bool {
        &&& self.killmails == o.killmails
        &&& self.victims == o.victims
        &&& self.attackers == o.attackers
        &&& self.positions == o.positions
        &&& self.characters == o.characters
        &&& self.alliances == o.alliances
        &&& self.corporations == o.corporations
        &&& self.esi_categories == o.esi_categories
        &&& self.esi_groups == o.esi_groups
        &&& self.esi_types == o.esi_types
    }

    /// All tables but the categories agree with `o`.
    pub open spec fn same_except_categories(self, o: Store) -> bool {
        &&& self.killmails == o.killmails
        &&& self.victims == o.victims
        &&& self.attackers == o.attackers
        &&& self.positions == o.positions
        &&& self.characters == o.characters
        &&& self.alliances == o.alliances
        &&& self.corporations == o.corporations
        &&& self.factions == o.factions
        &&& self.esi_groups == o.esi_groups
        &&& self.esi_types == o.esi_types
    }

    /// All tables but the groups agree with `o`.
    pub open spec fn same_except_groups(self, o: Store) -> bool {
        &&& self.killmails == o.killmails
        &&& self.victims == o.victims
        &&& self.attackers == o.attackers
        &&& self.positions == o.positions
        &&& self.characters == o.characters
        &&& self.alliances == o.alliances
        &&& self.corporations == o.corporations
        &&& self.factions == o.factions
        &&& self.esi_categories == o.esi_categories
        &&& self.esi_types == o.esi_types
    }

    /// All tables but the item types agree with `o`.
    pub open spec fn same_except_types(self, o: Store) -> bool {
        &&& self.killmails == o.killmails
        &&& self.victims == o.victims
        &&& self.attackers == o.attackers
        &&& self.positions == o.positions
        &&& self.characters == o.characters
        &&& self.alliances == o.alliances
        &&& self.corporations == o.corporations
        &&& self.factions == o.factions
        &&& self.esi_categories == o.esi_categories
        &&& self.esi_groups == o.esi_groups
    }

    /// An empty store.
    pub fn new() -> (r: Store)
        ensures
            r.wf(),
            r.killmails@.len() == 0,
            r.victims@.len() == 0,
            r.attackers@.len() == 0,
            r.positions@.len() == 0,
            r.characters@.len() == 0,
            r.alliances@.len() == 0,
            r.corporations@.len() == 0,
            r.factions@.len() == 0,
            r.esi_categories@.len() == 0,
            r.esi_groups@.len() == 0,
            r.esi_types@.len() == 0,
    {
        Store {
            killmails: Vec::new(),
            victims: Vec::new(),
            attackers: Vec::new(),
            positions: Vec::new(),
            characters: Vec::new(),
            alliances: Vec::new(),
            corporations: Vec::new(),
            factions: Vec::new(),
            esi_categories: Vec::new(),
            esi_groups: Vec::new(),
            esi_types: Vec::new(),
        }
    }

    /// Looks a killmail id up.
    pub fn contains_killmail(&self, id: u64) -> (r: bool)
        ensures
            r == self.has_killmail(id),
    {
        let n = self.killmails.len();
        let mut i: usize = 0;
        while i < n
            invariant
                0 <= i <= n == self.killmails@.len(),
                forall|j: int| 0 <= j < i ==> self.killmails@[j].killmail_id != id,
            decreases n - i,
        {
            if self.killmails[i].killmail_id == id {
                return true;
            }
            i = i + 1;
        }
        false
    }

    /// Looks a character id up.
    pub fn contains_character(&self, id: u64) -> (r: bool)
        ensures
            r == self.has_character(id),
    {
        let n = self.characters.len();
        let mut i: usize = 0;
        while i < n
            invariant
                0 <= i <= n == self.characters@.len(),
                forall|j: int| 0 <= j < i ==> self.characters@[j].character_id != id,
            decreases n - i,
        {
            if self.characters[i].character_id == id {
                return true;
            }
            i = i + 1;
        }
        false
    }

    /// Looks an alliance id up.
    pub fn contains_alliance(&self, id: u64) -> (r: bool)
        ensures
            r == self.has_alliance(id),
    {
        let n = self.alliances.len();
        let mut i: usize = 0;
        while i < n
            invariant
                0 <= i <= n == self.alliances@.len(),
                forall|j: int| 0 <= j < i ==> self.alliances@[j].alliance_id != id,
            decreases n - i,
        {
            if self.alliances[i].alliance_id == id {
                return true;
            }
            i = i + 1;
        }
        false
    }

    /// Looks a corporation id up.
    pub fn contains_corporation(&self, id: u64) -> (r: bool)
        ensures
            r == self.has_corporation(id),
    {
        let n = self.corporations.len();
        let mut i: usize = 0;
        while i < n
            invariant
                0 <= i <= n == self.corporations@.len(),
                forall|j: int| 0 <= j < i ==> self.corporations@[j].corporation_id != id,
            decreases n - i,
        {
            if self.corporations[i].corporation_id == id {
                return true;
            }
            i = i + 1;
        }
        false
    }

    /// Looks a faction id up.
    pub fn contains_faction(&self, id: u64) -> (r: bool)
        ensures
            r == self.has_faction(id),
    {
        let n = self.factions.len();
        let mut i: usize = 0;
        while i < n
            invariant
                0 <= i <= n == self.factions@.len(),
                forall|j: int| 0 <= j < i ==> self.factions@[j].faction_id != id,
            decreases n - i,
        {
            if self.factions[i].faction_id == id {
                return true;
            }
            i = i + 1;
        }
        false
    }

    /// Looks a category id up.
    pub fn contains_category(&self, id: u64) -> (r: bool)
        ensures
            r == self.has_category(id),
    {
        let n = self.esi_categories.len();
        let mut i: usize = 0;
        while i < n
            invariant
                0 <= i <= n == self.esi_categories@.len(),
                forall|j: int| 0 <= j < i ==> self.esi_categories@[j].category_id != id,
            decreases n - i,
        {
            if self.esi_categories[i].category_id == id {
                return true;
            }
            i = i + 1;
        }
        false
    }

    /// Looks a group id up.
    pub fn contains_group(&self, id: u64) -> (r: bool)
        ensures
            r == self.has_group(id),
    {
        let n = self.esi_groups.len();
        let mut i: usize = 0;
        while i < n
            invariant
                0 <= i <= n == self.esi_groups@.len(),
                forall|j: int| 0 <= j < i ==> self.esi_groups@[j].group_id != id,
            decreases n - i,
        {
            if self.esi_groups[i].group_id == id {
                return true;
            }
            i = i + 1;
        }
        false
    }

    /// Looks an item-type id up.
    pub fn contains_type(&self, id: u64) -> (r: bool)
        ensures
            r == self.has_type(id),
    {
        let n = self.esi_types.len();
        let mut i: usize = 0;
        while i < n
            invariant
                0 <= i <= n == self.esi_types@.len(),
                forall|j: int| 0 <= j < i ==> self.esi_types@[j].type_id != id,
            decreases n - i,
        {
            if self.esi_types[i].type_id == id {
                return true;
            }
            i = i + 1;
        }
        false
    }

    /// Inserts a killmail unless its id is already present; the killmail row
    /// is the parent of all its children and must be confirmed new before any
    /// child is written.
    pub fn insert_killmail_if_not_present(&mut self, km: KillmailRow) -> (r: CreateOrExist)
        requires
            old(self).wf(),
        ensures
            final(self).wf(),
            r is Exists <==> old(self).has_killmail(km.killmail_id),
            r is Exists ==> *final(self) == *old(self),
            r is Created ==> final(self).killmails@ == old(self).killmails@.push(km) && final(self).same_except_killmails(*old(self)),
            final(self).has_killmail(km.killmail_id),
    {
        if self.contains_killmail(km.killmail_id) {
            CreateOrExist::Exists
        } else {
            let ghost pre = *self;
            self.killmails.push(km);
            proof {
                assert(self.killmails@.last() == km);
                assert forall|i: int|
                    0 <= i < self.victims@.len() implies self.has_killmail(
                    (#[trigger] self.victims@[i]).killmail_id,
                ) by {
                    let w = choose|w: int|
                        0 <= w < pre.killmails@.len() && pre.killmails@[w].killmail_id
                            == pre.victims@[i].killmail_id;
                    assert(self.killmails@[w].killmail_id == self.victims@[i].killmail_id);
                }
                assert forall|i: int|
                    0 <= i < self.attackers@.len() implies self.has_killmail(
                    (#[trigger] self.attackers@[i]).killmail_id,
                ) by {
                    let w = choose|w: int|
                        0 <= w < pre.killmails@.len() && pre.killmails@[w].killmail_id
                            == pre.attackers@[i].killmail_id;
                    assert(self.killmails@[w].killmail_id == self.attackers@[i].killmail_id);
                }
                assert forall|i: int|
                    0 <= i < self.positions@.len() implies self.has_killmail(
                    (#[trigger] self.positions@[i]).killmail_id,
                ) by {
                    let w = choose|w: int|
                        0 <= w < pre.killmails@.len() && pre.killmails@[w].killmail_id
                            == pre.positions@[i].killmail_id;
                    assert(self.killmails@[w].killmail_id == self.positions@[i].killmail_id);
                }
            }
            CreateOrExist::Created
        }
    }

    /// Inserts a character row unless its id is already present.
    pub fn insert_pubchar_info_if_not_present(&mut self, info: CharacterRow) -> (r: CreateOrExist)
        requires
            old(self).wf(),
        ensures
            final(self).wf(),
            r is Exists <==> old(self).has_character(info.character_id),
            r is Exists ==> *final(self) == *old(self),
            r is Created ==> final(self).characters@ == old(self).characters@.push(info) && final(self).same_except_characters(*old(self)),
            final(self).has_character(info.character_id),
    {
        if self.contains_character(info.character_id) {
            CreateOrExist::Exists
        } else {
            self.characters.push(info);
            proof {
                assert(self.characters@.last() == info);
                self.lemma_killmails_untouched_children_ok(*old(self));
            }
            CreateOrExist::Created
        }
    }

    /// Inserts an alliance row unless its id is already present.
    pub fn insert_alliance_if_not_present(&mut self, alliance: AllianceRow) -> (r: CreateOrExist)
        requires
            old(self).wf(),
        ensures
            final(self).wf(),
            r is Exists <==> old(self).has_alliance(alliance.alliance_id),
            r is Exists ==> *final(self) == *old(self),
            r is Created ==> final(self).alliances@ == old(self).alliances@.push(alliance)
                && final(self).same_except_alliances(*old(self)),
            final(self).has_alliance(alliance.alliance_id),
    {
        if self.contains_alliance(alliance.alliance_id) {
            CreateOrExist::Exists
        } else {
            self.alliances.push(alliance);
            proof {
                assert(self.alliances@.last() == alliance);
                self.lemma_killmails_untouched_children_ok(*old(self));
            }
            CreateOrExist::Created
        }
    }

    /// Inserts a corporation row unless its id is already present.
    pub fn insert_corporation_if_not_present(&mut self, corporation: CorporationRow) -> (r:
        CreateOrExist)
        requires
            old(self).wf(),
        ensures
            final(self).wf(),
            r is Exists <==> old(self).has_corporation(corporation.corporation_id),
            r is Exists ==> *final(self) == *old(self),
            r is Created ==> final(self).corporations@ == old(self).corporations@.push(corporation)
                && final(self).same_except_corporations(*old(self)),
            final(self).has_corporation(corporation.corporation_id),
    {
        if self.contains_corporation(corporation.corporation_id) {
            CreateOrExist::Exists
        } else {
            self.corporations.push(corporation);
            proof {
                assert(self.corporations@.last() == corporation);
                self.lemma_killmails_untouched_children_ok(*old(self));
            }
            CreateOrExist::Created
        }
    }

    /// Inserts a faction row unless its id is already present.
    pub fn insert_faction_if_not_present(&mut self, faction: FactionRow) -> (r: CreateOrExist)
        requires
            old(self).wf(),
        ensures
            final(self).wf(),
            r is Exists <==> old(self).has_faction(faction.faction_id),
            r is Exists ==> *final(self) == *old(self),
            r is Created ==> final(self).factions@ == old(self).factions@.push(faction) && final(self).same_except_factions(*old(self)),
            final(self).has_faction(faction.faction_id),
    {
        if self.contains_faction(faction.faction_id) {
            CreateOrExist::Exists
        } else {
            self.factions.push(faction);
            proof {
                assert(self.factions@.last() == faction);
                self.lemma_killmails_untouched_children_ok(*old(self));
            }
            CreateOrExist::Created
        }
    }

    /// Inserts a category row unless its id is already present.
    pub fn insert_category_if_not_present(&mut self, category: EsiCategoryRow) -> (r: CreateOrExist)
        requires
            old(self).wf(),
        ensures
            final(self).wf(),
            r is Exists <==> old(self).has_category(category.category_id),
            r is Exists ==> *final(self) == *old(self),
            r is Created ==> final(self).esi_categories@ == old(self).esi_categories@.push(category)
                && final(self).same_except_categories(*old(self)),
            final(self).has_category(category.category_id),
    {
        if self.contains_category(category.category_id) {
            CreateOrExist::Exists
        } else {
            self.esi_categories.push(category);
            proof {
                assert(self.esi_categories@.last() == category);
                self.lemma_killmails_untouched_children_ok(*old(self));
            }
            CreateOrExist::Created
        }
    }

    /// Inserts a group row unless its id is already present.
    pub fn insert_group_if_not_present(&mut self, group: EsiGroupRow) -> (r: CreateOrExist)
        requires
            old(self).wf(),
        ensures
            final(self).wf(),
            r is Exists <==> old(self).has_group(group.group_id),
            r is Exists ==> *final(self) == *old(self),
            r is Created ==> final(self).esi_groups@ == old(self).esi_groups@.push(group) && final(self).same_except_groups(*old(self)),
            final(self).has_group(group.group_id),
    {
        if self.contains_group(group.group_id) {
            CreateOrExist::Exists
        } else {
            self.esi_groups.push(group);
            proof {
                assert(self.esi_groups@.last() == group);
                self.lemma_killmails_untouched_children_ok(*old(self));
            }
            CreateOrExist::Created
        }
    }

    /// Inserts an item-type row unless its id is already present.
    pub fn insert_type_if_not_present(&mut self, esi_type: EsiTypeRow) -> (r: CreateOrExist)
        requires
            old(self).wf(),
        ensures
            final(self).wf(),
            r is Exists <==> old(self).has_type(esi_type.type_id),
            r is Exists ==> *final(self) == *old(self),
            r is Created ==> final(self).esi_types@ == old(self).esi_types@.push(esi_type) && final(self).same_except_types(*old(self)),
            final(self).has_type(esi_type.type_id),
    {
        if self.contains_type(esi_type.type_id) {
            CreateOrExist::Exists
        } else {
            self.esi_types.push(esi_type);
            proof {
                assert(self.esi_types@.last() == esi_type);
                self.lemma_killmails_untouched_children_ok(*old(self));
            }
            CreateOrExist::Created
        }
    }

    /// Inserts the victim row of a killmail, assigning its surrogate key.
    pub fn insert_victim(&mut self, v: VictimRow) -> (r: u64)
        requires
            old(self).wf(),
            old(self).has_killmail(v.killmail_id),
        ensures
            final(self).wf(),
            r == old(self).victims@.len() as u64,
            final(self).victims@ == old(self).victims@.push(victim_with_id(v, r)),
            final(self).same_except_victims(*old(self)),
    {
        let id = self.victims.len() as u64;
        let mut row = v;
        row.victim_id = id;
        self.victims.push(row);
        proof {
            assert(self.victims@.drop_last() =~= old(self).victims@);
            assert(self.victims@.last() == victim_with_id(v, id));
            self.lemma_killmails_untouched_children_ok(*old(self));
            assert(self.victims@ =~= old(self).victims@.push(victim_with_id(v, id)));
        }
        id
    }

    /// Inserts the position row of a killmail, assigning its surrogate key.
    pub fn insert_position(&mut self, p: PositionRow) -> (r: u64)
        requires
            old(self).wf(),
            old(self).has_killmail(p.killmail_id),
        ensures
            final(self).wf(),
            r == old(self).positions@.len() as u64,
            final(self).positions@ == old(self).positions@.push(position_with_id(p, r)),
            final(self).same_except_positions(*old(self)),
    {
        let id = self.positions.len() as u64;
        let mut row = p;
        row.position_id = id;
        self.positions.push(row);
        proof {
            assert(self.positions@.drop_last() =~= old(self).positions@);
            assert(self.positions@.last() == position_with_id(p, id));
            self.lemma_killmails_untouched_children_ok(*old(self));
            assert(self.positions@ =~= old(self).positions@.push(position_with_id(p, id)));
        }
        id
    }

    /// Inserts a batch of attacker rows of a killmail in one statement,
    /// assigning consecutive surrogate keys.
    pub fn insert_multiple_attackers(&mut self, attackers: Vec<AttackerRow>)
        requires
            old(self).wf(),
            forall|j: int|
                0 <= j < attackers@.len() ==> old(self).has_killmail(
                    (#[trigger] attackers@[j]).killmail_id,
                ),
        ensures
            final(self).wf(),
            final(self).attackers@ == old(self).attackers@ + attackers_with_ids(
                attackers@,
                old(self).attackers@.len() as int,
            ),
            final(self).same_except_attackers(*old(self)),
    {
        let ghost pre = *self;
        let ghost base = self.attackers@.len() as int;
        let n = attackers.len();
        let mut j: usize = 0;
        while j < n
            invariant
                0 <= j <= n == attackers@.len(),
                self.attackers@ == pre.attackers@ + attackers_with_ids(
                    attackers@.take(j as int),
                    base,
                ),
                self.attackers@.len() == base + j,
                self.same_except_attackers(pre),
                pre.wf(),
                self.wf(),
                forall|k: int|
                    0 <= k < attackers@.len() ==> pre.has_killmail(
                        (#[trigger] attackers@[k]).killmail_id,
                    ),
            decreases n - j,
        {
            let ghost before = *self;
            let id = self.attackers.len() as u64;
            let mut row = attackers[j];
            row.attacker_id = id;
            self.attackers.push(row);
            proof {
                assert(self.attackers@.drop_last() =~= before.attackers@);
                assert(self.attackers@.last() == attacker_with_id(attackers@[j as int], id));
                assert(attackers@.take(j + 1) =~= attackers@.take(j as int).push(attackers@[j as int]));
                assert(attackers_with_ids(attackers@.take(j + 1), base) =~= attackers_with_ids(
                    attackers@.take(j as int),
                    base,
                ).push(attacker_with_id(attackers@[j as int], (base + j) as u64)));
                assert(self.attackers@ =~= pre.attackers@ + attackers_with_ids(
                    attackers@.take(j + 1),
                    base,
                ));
                self.lemma_killmails_untouched_children_ok(before);
            }
            j = j + 1;
        }
        proof {
            assert(attackers@.take(n as int) =~= attackers@);
        }
    }

    /// When the killmail table is untouched, every child-row reference that
    /// held before an append to another table still holds.
    proof fn lemma_killmails_untouched_children_ok(self, pre: Store)
        requires
            pre.wf(),
            self.killmails == pre.killmails,
            self.victims@.len() > 0 ==> self.victims@.drop_last() == pre.victims@ || self.victims
                == pre.victims,
            self.victims@.len() == pre.victims@.len() || self.victims@.len() == pre.victims@.len()
                + 1,
            self.victims@.len() == pre.victims@.len() ==> self.victims == pre.victims,
            self.attackers@.len() == pre.attackers@.len() || self.attackers@.len()
                == pre.attackers@.len() + 1,
            self.attackers@.len() == pre.attackers@.len() ==> self.attackers == pre.attackers,
            self.attackers@.len() > 0 ==> self.attackers@.drop_last() == pre.attackers@
                || self.attackers == pre.attackers,
            self.positions@.len() == pre.positions@.len() || self.positions@.len()
                == pre.positions@.len() + 1,
            self.positions@.len() == pre.positions@.len() ==> self.positions == pre.positions,
            self.positions@.len() > 0 ==> self.positions@.drop_last() == pre.positions@
                || self.positions == pre.positions,
            self.victims@.len() > pre.victims@.len() ==> pre.has_killmail(
                self.victims@.last().killmail_id,
            ),
            self.attackers@.len() > pre.attackers@.len() ==> pre.has_killmail(
                self.attackers@.last().killmail_id,
            ),
            self.positions@.len() > pre.positions@.len() ==> pre.has_killmail(
                self.positions@.last().killmail_id,
            ),
        ensures
            self.children_have_killmail(),
    {
        assert forall|i: int|
            0 <= i < self.victims@.len() implies self.has_killmail(
            (#[trigger] self.victims@[i]).killmail_id,
        ) by {
            if i < pre.victims@.len() {
                assert(self.victims@[i] == pre.victims@[i]);
            }
        }
        assert forall|i: int|
            0 <= i < self.attackers@.len() implies self.has_killmail(
            (#[trigger] self.attackers@[i]).killmail_id,
        ) by {
            if i < pre.attackers@.len() {
                assert(self.attackers@[i] == pre.attackers@[i]);
            }
        }
        assert forall|i: int|
            0 <= i < self.positions@.len() implies self.has_killmail(
            (#[trigger] self.positions@[i]).killmail_id,
        ) by {
            if i < pre.positions@.len() {
                assert(self.positions@[i] == pre.positions@[i]);
            }
        }
    }
}

/// Whether two alliance rows agree, comparing text by view.
pub open spec fn alliance_rows_like(a: AllianceRow, b: AllianceRow) -> bool {
    &&& a.alliance_id == b.alliance_id
    &&& a.faction_id == b.faction_id
    &&& a.name@ == b.name@
    &&& a.ticker@ == b.ticker@
}

/// Whether two character rows agree, comparing text by view.
pub open spec fn character_rows_like(a: CharacterRow, b: CharacterRow) -> bool {
    &&& a.character_id == b.character_id
    &&& a.alliance_id == b.alliance_id
    &&& a.character_name@ == b.character_name@
    &&& crate::esi_models::opt_str_view(a.birthday) == crate::esi_models::opt_str_view(b.birthday)
    &&& a.corporation_id == b.corporation_id
    &&& a.faction_id == b.faction_id
    &&& a.last_updated == b.last_updated
}

/// Whether two corporation rows agree, comparing text by view.
pub open spec fn corporation_rows_like(a: CorporationRow, b: CorporationRow) -> bool {
    &&& a.corporation_id == b.corporation_id
    &&& a.alliance_id == b.alliance_id
    &&& a.faction_id == b.faction_id
    &&& a.member_count == b.member_count
    &&& a.name@ == b.name@
    &&& a.ticker@ == b.ticker@
    &&& a.war_eligible == b.war_eligible
}

/// Whether two faction rows agree, comparing text by view.
pub open spec fn faction_rows_like(a: FactionRow, b: FactionRow) -> bool {
    &&& a.faction_id == b.faction_id
    &&& a.corporation_id == b.corporation_id
    &&& a.militia_corporation_id == b.militia_corporation_id
    &&& a.name@ == b.name@
}

/// The effect of one idempotent alliance insert: a duplicate key leaves the
/// store unchanged, a new key appends a row that agrees with the input.
pub open spec fn alliance_insert_step(pre: Store, row: AllianceRow, post: Store) -> bool {
    if pre.has_alliance(row.alliance_id) {
        post == pre
    } else {
        &&& post.alliances@.len() == pre.alliances@.len() + 1
        &&& post.alliances@.drop_last() == pre.alliances@
        &&& alliance_rows_like(post.alliances@.last(), row)
        &&& post.same_except_alliances(pre)
    }
}

/// The effect of idempotently inserting a batch of alliance rows in order.
pub open spec fn alliances_inserted(pre: Store, rows: Seq<AllianceRow>, post: Store) -> bool
    decreases rows.len(),
{
    if rows.len() == 0 {
        post == pre
    } else {
        exists|mid: Store|
            alliances_inserted(pre, rows.drop_last(), mid) && alliance_insert_step(
                mid,
                rows.last(),
                post,
            )
    }
}

/// The effect of one idempotent character insert.
pub open spec fn character_insert_step(pre: Store, row: CharacterRow, post: Store) -> bool {
    if pre.has_character(row.character_id) {
        post == pre
    } else {
        &&& post.characters@.len() == pre.characters@.len() + 1
        &&& post.characters@.drop_last() == pre.characters@
        &&& character_rows_like(post.characters@.last(), row)
        &&& post.same_except_characters(pre)
    }
}

/// The effect of idempotently inserting a batch of character rows in order.
pub open spec fn characters_inserted(pre: Store, rows: Seq<CharacterRow>, post: Store) -> bool
    decreases rows.len(),
{
    if rows.len() == 0 {
        post == pre
    } else {
        exists|mid: Store|
            characters_inserted(pre, rows.drop_last(), mid) && character_insert_step(
                mid,
                rows.last(),
                post,
            )
    }
}

/// The effect of one idempotent corporation insert.
pub open spec fn corporation_insert_step(pre: Store, row: CorporationRow, post: Store) -> bool {
    if pre.has_corporation(row.corporation_id) {
        post == pre
    } else {
        &&& post.corporations@.len() == pre.corporations@.len() + 1
        &&& post.corporations@.drop_last() == pre.corporations@
        &&& corporation_rows_like(post.corporations@.last(), row)
        &&& post.same_except_corporations(pre)
    }
}

/// The effect of idempotently inserting a batch of corporation rows in order.
pub open spec fn corporations_inserted(pre: Store, rows: Seq<CorporationRow>, post: Store) -> bool
    decreases rows.len(),
{
    if rows.len() == 0 {
        post == pre
    } else {
        exists|mid: Store|
            corporations_inserted(pre, rows.drop_last(), mid) && corporation_insert_step(
                mid,
                rows.last(),
                post,
            )
    }
}

/// The effect of one idempotent faction insert.
pub open spec fn faction_insert_step(pre: Store, row: FactionRow, post: Store) -> bool {
    if pre.has_faction(row.faction_id) {
        post == pre
    } else {
        &&& post.factions@.len() == pre.factions@.len() + 1
        &&& post.factions@.drop_last() == pre.factions@
        &&& faction_rows_like(post.factions@.last(), row)
        &&& post.same_except_factions(pre)
    }
}

/// The effect of idempotently inserting a batch of faction rows in order.
pub open spec fn factions_inserted(pre: Store, rows: Seq<FactionRow>, post: Store) -> bool
    decreases rows.len(),
{
    if rows.len() == 0 {
        post == pre
    } else {
        exists|mid: Store|
            factions_inserted(pre, rows.drop_last(), mid) && faction_insert_step(
                mid,
                rows.last(),
                post,
            )
    }
}

impl Store {
    /// Inserts a batch of alliance rows, collapsing duplicate keys.
    pub fn insert_alliances_if_not_present(&mut self, alliances: &Vec<AllianceRow>)
        requires
            old(self).wf(),
        ensures
            final(self).wf(),
            alliances_inserted(*old(self), alliances@, *final(self)),
    {
        let ghost pre = *old(self);
        let n = alliances.len();
        let mut j: usize = 0;
        while j < n
            invariant
                0 <= j <= n == alliances@.len(),
                self.wf(),
                alliances_inserted(pre, alliances@.take(j as int), *self),
            decreases n - j,
        {
            let ghost mid = *self;
            let a = &alliances[j];
            let row = AllianceRow {
                alliance_id: a.alliance_id,
                faction_id: a.faction_id,
                name: a.name.clone(),
                ticker: a.ticker.clone(),
            };
            let outcome = self.insert_alliance_if_not_present(row);
            proof {
                if outcome is Created {
                    assert(self.alliances@.drop_last() =~= mid.alliances@);
                }
                assert(alliance_insert_step(mid, alliances@[j as int], *self));
                assert(alliances@.take(j as int + 1).drop_last() =~= alliances@.take(j as int));
                assert(alliances@.take(j as int + 1).last() == alliances@[j as int]);
                assert(alliances_inserted(pre, alliances@.take(j as int + 1), *self));
            }
            j = j + 1;
        }
        proof {
            assert(alliances@.take(n as int) =~= alliances@);
        }
    }

    /// Inserts a batch of character rows, collapsing duplicate keys.
    pub fn insert_pubchars_if_not_present(&mut self, public_infos: &Vec<CharacterRow>)
        requires
            old(self).wf(),
        ensures
            final(self).wf(),
            characters_inserted(*old(self), public_infos@, *final(self)),
    {
        let ghost pre = *old(self);
        let n = public_infos.len();
        let mut j: usize = 0;
        while j < n
            invariant
                0 <= j <= n == public_infos@.len(),
                self.wf(),
                characters_inserted(pre, public_infos@.take(j as int), *self),
            decreases n - j,
        {
            let ghost mid = *self;
            let c = &public_infos[j];
            let birthday = match &c.birthday {
                Some(b) => Some(b.clone()),
                None => None,
            };
            let row = CharacterRow {
                character_id: c.character_id,
                alliance_id: c.alliance_id,
                character_name: c.character_name.clone(),
                birthday,
                corporation_id: c.corporation_id,
                faction_id: c.faction_id,
                last_updated: c.last_updated,
            };
            let outcome = self.insert_pubchar_info_if_not_present(row);
            proof {
                if outcome is Created {
                    assert(self.characters@.drop_last() =~= mid.characters@);
                }
                assert(character_insert_step(mid, public_infos@[j as int], *self));
                assert(public_infos@.take(j as int + 1).drop_last() =~= public_infos@.take(
                    j as int,
                ));
                assert(public_infos@.take(j as int + 1).last() == public_infos@[j as int]);
                assert(characters_inserted(pre, public_infos@.take(j as int + 1), *self));
            }
            j = j + 1;
        }
        proof {
            assert(public_infos@.take(n as int) =~= public_infos@);
        }
    }

    /// Inserts a batch of corporation rows, collapsing duplicate keys.
    pub fn insert_corporations_if_not_present(&mut self, corporations: &Vec<CorporationRow>)
        requires
            old(self).wf(),
        ensures
            final(self).wf(),
            corporations_inserted(*old(self), corporations@, *final(self)),
    {
        let ghost pre = *old(self);
        let n = corporations.len();
        let mut j: usize = 0;
        while j < n
            invariant
                0 <= j <= n == corporations@.len(),
                self.wf(),
                corporations_inserted(pre, corporations@.take(j as int), *self),
            decreases n - j,
        {
            let ghost mid = *self;
            let c = &corporations[j];
            let row = CorporationRow {
                corporation_id: c.corporation_id,
                alliance_id: c.alliance_id,
                faction_id: c.faction_id,
                member_count: c.member_count,
                name: c.name.clone(),
                ticker: c.ticker.clone(),
                war_eligible: c.war_eligible,
            };
            let outcome = self.insert_corporation_if_not_present(row);
            proof {
                if outcome is Created {
                    assert(self.corporations@.drop_last() =~= mid.corporations@);
                }
                assert(corporation_insert_step(mid, corporations@[j as int], *self));
                assert(corporations@.take(j as int + 1).drop_last() =~= corporations@.take(
                    j as int,
                ));
                assert(corporations@.take(j as int + 1).last() == corporations@[j as int]);
                assert(corporations_inserted(pre, corporations@.take(j as int + 1), *self));
            }
            j = j + 1;
        }
        proof {
            assert(corporations@.take(n as int) =~= corporations@);
        }
    }

    /// Inserts a batch of faction rows, collapsing duplicate keys.
    pub fn insert_if_not_present_factions(&mut self, factions: &Vec<FactionRow>)
        requires
            old(self).wf(),
        ensures
            final(self).wf(),
            factions_inserted(*old(self), factions@, *final(self)),
    {
        let ghost pre = *old(self);
        let n = factions.len();
        let mut j: usize = 0;
        while j < n
            invariant
                0 <= j <= n == factions@.len(),
                self.wf(),
                factions_inserted(pre, factions@.take(j as int), *self),
            decreases n - j,
        {
            let ghost mid = *self;
            let f = &factions[j];
            let row = FactionRow {
                faction_id: f.faction_id,
                corporation_id: f.corporation_id,
                militia_corporation_id: f.militia_corporation_id,
                name: f.name.clone(),
            };
            let outcome = self.insert_faction_if_not_present(row);
            proof {
                if outcome is Created {
                    assert(self.factions@.drop_last() =~= mid.factions@);
                }
                assert(faction_insert_step(mid, factions@[j as int], *self));
                assert(factions@.take(j as int + 1).drop_last() =~= factions@.take(j as int));
                assert(factions@.take(j as int + 1).last() == factions@[j as int]);
                assert(factions_inserted(pre, factions@.take(j as int + 1), *self));
            }
            j = j + 1;
        }
        proof {
            assert(factions@.take(n as int) =~= factions@);
        }
    }
}

/// Whether two category rows agree, comparing text by view.
pub open spec fn category_rows_like(a: EsiCategoryRow, b: EsiCategoryRow) -> bool {
    &&& a.category_id == b.category_id
    &&& a.category_name@ == b.category_name@
}

/// The effect of one idempotent category insert.
pub open spec fn category_insert_step(pre: Store, row: EsiCategoryRow, post: Store) -> bool {
    if pre.has_category(row.category_id) {
        post == pre
    } else {
        &&& post.esi_categories@.len() == pre.esi_categories@.len() + 1
        &&& post.esi_categories@.drop_last() == pre.esi_categories@
        &&& category_rows_like(post.esi_categories@.last(), row)
        &&& post.same_except_categories(pre)
    }
}

/// The effect of idempotently inserting a batch of category rows in order.
pub open spec fn categories_inserted(pre: Store, rows: Seq<EsiCategoryRow>, post: Store) -> bool
    decreases rows.len(),
{
    if rows.len() == 0 {
        post == pre
    } else {
        exists|mid: Store|
            categories_inserted(pre, rows.drop_last(), mid) && category_insert_step(
                mid,
                rows.last(),
                post,
            )
    }
}

/// Whether two group rows agree, comparing text by view.
pub open spec fn group_rows_like(a: EsiGroupRow, b: EsiGroupRow) -> bool {
    &&& a.group_id == b.group_id
    &&& a.group_name@ == b.group_name@
    &&& a.category_id == b.category_id
}

/// The effect of one idempotent group insert.
pub open spec fn group_insert_step(pre: Store, row: EsiGroupRow, post: Store) -> bool {
    if pre.has_group(row.group_id) {
        post == pre
    } else {
        &&& post.esi_groups@.len() == pre.esi_groups@.len() + 1
        &&& post.esi_groups@.drop_last() == pre.esi_groups@
        &&& group_rows_like(post.esi_groups@.last(), row)
        &&& post.same_except_groups(pre)
    }
}

/// The effect of idempotently inserting a batch of group rows in order.
pub open spec fn groups_inserted(pre: Store, rows: Seq<EsiGroupRow>, post: Store) -> bool
    decreases rows.len(),
{
    if rows.len() == 0 {
        post == pre
    } else {
        exists|mid: Store|
            groups_inserted(pre, rows.drop_last(), mid) && group_insert_step(
                mid,
                rows.last(),
                post,
            )
    }
}

/// Whether two item-type rows agree, comparing text by view.
pub open spec fn esi_type_rows_like(a: EsiTypeRow, b: EsiTypeRow) -> bool {
    &&& a.type_id == b.type_id
    &&& a.description@ == b.description@
    &&& a.group_id == b.group_id
    &&& a.name_of_type@ == b.name_of_type@
    &&& a.mass_bits == b.mass_bits
}

/// The effect of one idempotent item-type insert.
pub open spec fn esi_type_insert_step(pre: Store, row: EsiTypeRow, post: Store) -> bool {
    if pre.has_type(row.type_id) {
        post == pre
    } else {
        &&& post.esi_types@.len() == pre.esi_types@.len() + 1
        &&& post.esi_types@.drop_last() == pre.esi_types@
        &&& esi_type_rows_like(post.esi_types@.last(), row)
        &&& post.same_except_types(pre)
    }
}

/// The effect of idempotently inserting a batch of item-type rows in order.
pub open spec fn types_inserted(pre: Store, rows: Seq<EsiTypeRow>, post: Store) -> bool
    decreases rows.len(),
{
    if rows.len() == 0 {
        post == pre
    } else {
        exists|mid: Store|
            types_inserted(pre, rows.drop_last(), mid) && esi_type_insert_step(
                mid,
                rows.last(),
                post,
            )
    }
}

/// A failure to read a row's primary key out of a store value.
#[derive(Clone, Debug)]
pub struct ValueUnwrapError {
    pub message: String,
}

impl ValueUnwrapError {
    /// Wraps a message describing the unreadable value.
    pub fn new(msg: String) -> (r: ValueUnwrapError)
        ensures
            r.message == msg,
    {
        ValueUnwrapError { message: msg }
    }
}

impl Store {

    /// Inserts a batch of category rows, collapsing duplicate keys.
    pub fn insert_if_not_present_categories(&mut self, items: &Vec<EsiCategoryRow>)
        requires
            old(self).wf(),
        ensures
            final(self).wf(),
            categories_inserted(*old(self), items@, *final(self)),
    {
        let ghost pre = *old(self);
        let n = items.len();
        let mut j: usize = 0;
        while j < n
            invariant
                0 <= j <= n == items@.len(),
                self.wf(),
                categories_inserted(pre, items@.take(j as int), *self),
            decreases n - j,
        {
            let ghost mid = *self;
            let it = &items[j];
            let row = EsiCategoryRow {
                category_id: it.category_id,
                category_name: it.category_name.clone(),
            };
            let outcome = self.insert_category_if_not_present(row);
            proof {
                if outcome is Created {
                    assert(self.esi_categories@.drop_last() =~= mid.esi_categories@);
                }
                assert(category_insert_step(mid, items@[j as int], *self));
                assert(items@.take(j as int + 1).drop_last() =~= items@.take(j as int));
                assert(items@.take(j as int + 1).last() == items@[j as int]);
                assert(categories_inserted(pre, items@.take(j as int + 1), *self));
            }
            j = j + 1;
        }
        proof {
            assert(items@.take(n as int) =~= items@);
        }
    }

    /// Inserts a batch of group rows, collapsing duplicate keys.
    pub fn insert_if_not_present_groups(&mut self, items: &Vec<EsiGroupRow>)
        requires
            old(self).wf(),
        ensures
            final(self).wf(),
            groups_inserted(*old(self), items@, *final(self)),
    {
        let ghost pre = *old(self);
        let n = items.len();
        let mut j: usize = 0;
        while j < n
            invariant
                0 <= j <= n == items@.len(),
                self.wf(),
                groups_inserted(pre, items@.take(j as int), *self),
            decreases n - j,
        {
            let ghost mid = *self;
            let it = &items[j];
            let row = EsiGroupRow {
                group_id: it.group_id,
                group_name: it.group_name.clone(),
                category_id: it.category_id,
            };
            let outcome = self.insert_group_if_not_present(row);
            proof {
                if outcome is Created {
                    assert(self.esi_groups@.drop_last() =~= mid.esi_groups@);
                }
                assert(group_insert_step(mid, items@[j as int], *self));
                assert(items@.take(j as int + 1).drop_last() =~= items@.take(j as int));
                assert(items@.take(j as int + 1).last() == items@[j as int]);
                assert(groups_inserted(pre, items@.take(j as int + 1), *self));
            }
            j = j + 1;
        }
        proof {
            assert(items@.take(n as int) =~= items@);
        }
    }

    /// Inserts a batch of item-type rows, collapsing duplicate keys.
    pub fn insert_if_not_present_types(&mut self, items: &Vec<EsiTypeRow>)
        requires
            old(self).wf(),
        ensures
            final(self).wf(),
            types_inserted(*old(self), items@, *final(self)),
    {
        let ghost pre = *old(self);
        let n = items.len();
        let mut j: usize = 0;
        while j < n
            invariant
                0 <= j <= n == items@.len(),
                self.wf(),
                types_inserted(pre, items@.take(j as int), *self),
            decreases n - j,
        {
            let ghost mid = *self;
            let it = &items[j];
            let row = EsiTypeRow {
                type_id: it.type_id,
                description: it.description.clone(),
                group_id: it.group_id,
                name_of_type: it.name_of_type.clone(),
                mass_bits: it.mass_bits,
            };
            let outcome = self.insert_type_if_not_present(row);
            proof {
                if outcome is Created {
                    assert(self.esi_types@.drop_last() =~= mid.esi_types@);
                }
                assert(esi_type_insert_step(mid, items@[j as int], *self));
                assert(items@.take(j as int + 1).drop_last() =~= items@.take(j as int));
                assert(items@.take(j as int + 1).last() == items@[j as int]);
                assert(types_inserted(pre, items@.take(j as int + 1), *self));
            }
            j = j + 1;
        }
        proof {
            assert(items@.take(n as int) =~= items@);
        }
    }
}

/// A store-layer failure: a database error, or a primary key that could not
/// be read out of a row value.
#[derive(Clone, Debug)]
pub enum JagerDatabaseError {
    DBError(DbError),
    ValueUnwrapError(ValueUnwrapError),
}

impl JagerDatabaseError {
    /// Wraps a database error.
    pub fn from_db(err: DbError) -> (r: JagerDatabaseError)
        ensures
            r == JagerDatabaseError::DBError(err),
    {
        JagerDatabaseError::DBError(err)
    }

    /// Wraps an unreadable-key report.
    pub fn from_unwrap(err: ValueUnwrapError) -> (r: JagerDatabaseError)
        ensures
            r matches JagerDatabaseError::ValueUnwrapError(inner) && inner.message == err.message,
    {
        JagerDatabaseError::ValueUnwrapError(err)
    }
}

/// No child row exists for a killmail absent from the store: in a
/// well-formed store every victim, attacker and position row references a
/// present killmail row. Every mutating operation of the store preserves
/// this, so a killmail's children can only ever follow their parent in.
pub proof fn lemma_no_orphan_children(db: Store)
    requires
        db.wf(),
    ensures
        forall|i: int|
            0 <= i < db.victims@.len() ==> db.has_killmail((#[trigger] db.victims@[i]).killmail_id),
        forall|i: int|
            0 <= i < db.attackers@.len() ==> db.has_killmail(
                (#[trigger] db.attackers@[i]).killmail_id,
            ),
        forall|i: int|
            0 <= i < db.positions@.len() ==> db.has_killmail(
                (#[trigger] db.positions@[i]).killmail_id,
            ),
{
}

} // verus!
