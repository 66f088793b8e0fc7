//! What the tray shows of the presets: the table of inputs, their labels,
//! and how the startup preference is brought to bear.

use crate::config::presets::{has_name, sorted_pairs, strictly_sorted, InputPresets, Pair, Preset};
use crate::text::order::before;
use crate::text::same_text;
use crate::tray::commands::{CMD_OPEN_CONFIG_FOLDER, CMD_RELOAD};
use vstd::prelude::*;

verus! {

/// How many ids there are from `base` on before the next id is the id of
/// a fixed action, or no id at all: the most rows that a table with this
/// base has.
pub open spec fn capacity(base: u16) -> nat {
    if base <= CMD_RELOAD {
        (CMD_RELOAD - base) as nat
    } else if base <= CMD_OPEN_CONFIG_FOLDER {
        0
    } else {
        (0x1_0000 - base) as nat
    }
}

/// The `count` ids from `base` on fit in sixteen bits, and none of them is
/// the id of a fixed action.
pub open spec fn ids_fit(base: u16, count: nat) -> bool {
    count <= capacity(base)
}

/// The rows that a table with the base `base` takes of `rows`: all of
/// them, or as many of the first as it has ids for.
pub open spec fn fitting(rows: Seq<Pair>, base: u16) -> Seq<Pair> {
    if rows.len() <= capacity(base) {
        rows
    } else {
        rows.take(capacity(base) as int)
    }
}

/// The table of inputs as contracts see it: row `i` has the id `base + i`.
pub struct TableModel {
    pub base: u16,
    pub rows: Seq<Pair>,
}

impl TableModel {
    /// The ids of the rows fit in sixteen bits, and none is the id of a
    /// fixed action.
    pub open spec fn wf(self) -> bool {
        ids_fit(self.base, self.rows.len())
    }

    /// The id of row `i`.
    pub open spec fn id_of(self, i: int) -> u16 {
        (self.base + i) as u16
    }

    /// `id` is the id of a row.
    pub open spec fn has_id(self, id: u16) -> bool {
        self.base <= id < self.base + self.rows.len()
    }

    /// The row with the id `id`.
    pub open spec fn row_of(self, id: u16) -> Option<Pair> {
        if self.has_id(id) {
            Some(self.rows[id - self.base])
        } else {
            None
        }
    }
}

/// The inputs that the menu offers, each under an id of its own. The ids
/// count up from a base in the order of the rows.
#[derive(Debug)]
pub struct InputsTable {
    base: u16,
    entries: Vec<Preset>,
}

impl View for InputsTable {
    type V = TableModel;

    closed spec fn view(&self) -> TableModel {
        TableModel {
            base: self.base,
            rows: Seq::new(self.entries@.len(), |i: int| self.entries@[i].pair()),
        }
    }
}

impl Clone for InputsTable {
    fn clone(&self) -> (r: Self)
        ensures
            r@ == self@,
    {
        proof {
            use_type_invariant(self);
        }
        let mut entries: Vec<Preset> = Vec::new();
        let mut i: usize = 0;
        while i < self.entries.len()
            invariant
                i <= self.entries.len(),
                entries@.len() == i,
                forall|k: int|
                    0 <= k < i ==> (#[trigger] entries@[k]).pair() == self.entries@[k].pair(),
            decreases self.entries.len() - i,
        {
            let e = &self.entries[i];
            entries.push(Preset { name: e.name.clone(), value: e.value });
            i += 1;
        }
        let r = InputsTable { base: self.base, entries };
        assert(r@.rows =~= self@.rows);
        r
    }
}

impl InputsTable {
    #[verifier::type_invariant]
    spec fn inv(&self) -> bool {
        self@.wf()
    }

    /// The id of the first row.
    pub fn base(&self) -> (r: u16)
        ensures
            r == self@.base,
    {
        self.base
    }

    /// The number of rows.
    pub fn len(&self) -> (n: usize)
        ensures
            n == self@.rows.len(),
            self@.wf(),
    {
        proof {
            use_type_invariant(self);
        }
        self.entries.len()
    }

    /// `true` when the table has no row.
    pub fn is_empty(&self) -> (r: bool)
        ensures
            r == (self@.rows.len() == 0),
    {
        self.entries.len() == 0
    }

    /// The id of row `i`.
    pub fn id_at(&self, i: usize) -> (r: u16)
        requires
            i < self@.rows.len(),
        ensures
            r == self@.id_of(i as int),
            r == self@.base + i,
    {
        proof {
            use_type_invariant(self);
        }
        self.base + (i as u16)
    }

    /// The name of row `i`.
    pub fn name_at(&self, i: usize) -> (r: &String)
        requires
            i < self@.rows.len(),
        ensures
            r@ == self@.rows[i as int].0,
    {
        &self.entries[i].name
    }

    /// The value of row `i`.
    pub fn value_at(&self, i: usize) -> (r: u16)
        requires
            i < self@.rows.len(),
        ensures
            r == self@.rows[i as int].1,
    {
        self.entries[i].value
    }

    /// The name and value of the row with the id `id`, if there is one.
    pub fn get(&self, id: u16) -> (r: Option<(&String, u16)>)
        ensures
            self@.wf(),
            match r {
                Some((name, value)) => self@.row_of(id) == Some((name@, value)),
                None => self@.row_of(id) is None,
            },
    {
        proof {
            use_type_invariant(self);
        }
        if id < self.base {
            return None;
        }
        let i: usize = (id - self.base) as usize;
        if i < self.entries.len() {
            let e = &self.entries[i];
            Some((&e.name, e.value))
        } else {
            None
        }
    }
}

/// The rows shown where no preset is configured.
pub open spec fn default_rows() -> Seq<Pair> {
    seq![("dp1"@, 15u16), ("usb_c"@, 26u16)]
}

/// The rows that stand for the presets `pairs`: the presets themselves in
/// the order of their names, or the default rows where there is none.
pub open spec fn table_rows(pairs: Seq<Pair>) -> Seq<Pair> {
    if pairs.len() == 0 {
        default_rows()
    } else {
        pairs
    }
}

/// The table of inputs for the presets `presets` with the ids from `base`
/// on: the presets in the order of their names, or the default rows where
/// there is no preset, as far as there are ids for them.
pub open spec fn table_of(presets: Map<Seq<char>, u16>, base: u16) -> TableModel {
    TableModel { base, rows: fitting(table_rows(sorted_pairs(presets)), base) }
}

/// The most rows of a table with the base `base_cmd`.
pub fn row_capacity(base_cmd: u16) -> (r: usize)
    ensures
        r == capacity(base_cmd),
{
    if base_cmd <= CMD_RELOAD {
        (CMD_RELOAD - base_cmd) as usize
    } else if base_cmd <= CMD_OPEN_CONFIG_FOLDER {
        0
    } else {
        (u16::MAX - base_cmd) as usize + 1
    }
}

/// The table shown where no preset is configured: `dp1` is 15, `usb_c` is
/// 26. A row for which no id is left below the ids of the fixed actions,
/// or below the end of the ids, is left out.
pub fn default_inputs(base_cmd: u16) -> (r: InputsTable)
    ensures
        r@ == (TableModel { base: base_cmd, rows: fitting(default_rows(), base_cmd) }),
        r@.wf(),
{
    let room = row_capacity(base_cmd);
    let mut entries: Vec<Preset> = Vec::new();
    if room >= 1 {
        entries.push(Preset { name: String::from_str("dp1"), value: 15 });
    }
    if room >= 2 {
        entries.push(Preset { name: String::from_str("usb_c"), value: 26 });
    }
    let r = InputsTable { base: base_cmd, entries };
    assert(r@.rows =~= fitting(default_rows(), base_cmd));
    r
}

/// Builds the table of inputs: the presets in the order of their names,
/// under the ids `base_cmd`, `base_cmd + 1` and so on. Without presets the
/// table is the default one.
///
/// The order depends on the names alone, so the same presets get the same
/// ids whenever the table is built.
///
/// No row ever gets the id of a fixed action. The ids stop before the
/// first of those, or at the end of the ids where the base lies beyond
/// them: presets for which no id is left are not in the table. With the
/// base of the tray that leaves room for 3000 presets.
pub fn build_inputs(inputs: &InputPresets, base_cmd: u16) -> (r: InputsTable)
    ensures
        r@ == table_of(inputs@, base_cmd),
        r@.wf(),
        inputs@.len() > 0 ==> strictly_sorted(r@.rows),
        inputs@.len() <= capacity(base_cmd) ==> forall|name: Seq<char>|
            inputs@.contains_key(name) ==> has_name(r@.rows, name),
{
    let n = inputs.len();
    if n == 0 {
        return default_inputs(base_cmd);
    }
    let room = row_capacity(base_cmd);
    let kept: usize = if n <= room {
        n
    } else {
        room
    };
    let mut entries: Vec<Preset> = Vec::new();
    let mut i: usize = 0;
    while i < kept
        invariant
            i <= kept <= n,
            n == inputs.pairs().len(),
            entries@.len() == i,
            forall|k: int| 0 <= k < i ==> (#[trigger] entries@[k]).pair() == inputs.pairs()[k],
        decreases kept - i,
    {
        entries.push(Preset { name: inputs.name_at(i).clone(), value: inputs.value_at(i) });
        i += 1;
    }
    let r = InputsTable { base: base_cmd, entries };
    proof {
        let pairs = inputs.pairs();
        assert(r@.rows =~= fitting(pairs, base_cmd));
        assert forall|a: int, b: int| 0 <= a < b < r@.rows.len() implies before(
            #[trigger] r@.rows[a].0,
            #[trigger] r@.rows[b].0,
        ) by {
            assert(r@.rows[a] == pairs[a] && r@.rows[b] == pairs[b]);
        }
        if n <= room {
            assert forall|name: Seq<char>| inputs@.contains_key(name) implies has_name(
                r@.rows,
                name,
            ) by {
                assert(has_name(pairs, name));
            }
        }
    }
    r
}

/// Every table that is built keeps clear of the ids of the fixed actions,
/// whatever the presets and the base are.
pub proof fn lemma_table_keeps_clear(presets: Map<Seq<char>, u16>, base: u16, id: u16)
    requires
        table_of(presets, base).has_id(id),
    ensures
        table_of(presets, base).wf(),
        !(CMD_RELOAD <= id <= CMD_OPEN_CONFIG_FOLDER),
{
}

/// The table depends on the presets alone, not on how the presets came
/// together: any two lists in the order of the names that hold the same
/// presets give the same table, row for row and id for id.
pub proof fn lemma_same_presets_same_table(first: Seq<Pair>, second: Seq<Pair>, base: u16)
    requires
        strictly_sorted(first),
        strictly_sorted(second),
        crate::config::presets::pairs_map(first) == crate::config::presets::pairs_map(second),
    ensures
        first == second,
        table_of(crate::config::presets::pairs_map(first), base) == table_of(
            crate::config::presets::pairs_map(second),
            base,
        ),
        table_of(crate::config::presets::pairs_map(first), base).rows == fitting(
            table_rows(first),
            base,
        ),
{
    crate::config::presets::lemma_sorted_pairs_unique(first, second);
    crate::config::presets::lemma_sorted_pairs_of(first);
}

/// The rows of the table are the presets in the order of their names, each
/// name once, with its value: all of them where there are ids enough.
pub proof fn lemma_rows_follow_presets(presets: Map<Seq<char>, u16>, base: u16)
    requires
        presets.dom().finite(),
        0 < presets.len() <= capacity(base),
    ensures
        table_of(presets, base).rows == sorted_pairs(presets),
        strictly_sorted(table_of(presets, base).rows),
        crate::config::presets::pairs_map(table_of(presets, base).rows) == presets,
{
    crate::config::presets::lemma_sorted_pairs(presets);
}

/// The label of a preset whose name is well known, else the name itself.
pub open spec fn pretty_label(key: Seq<char>) -> Seq<char> {
    if key == "dp1"@ {
        "DisplayPort 1"@
    } else if key == "dp2"@ {
        "DisplayPort 2"@
    } else if key == "usb_c"@ {
        "USB-C"@
    } else if key == "usbc"@ {
        "USB-C"@
    } else if key == "hdmi1"@ {
        "HDMI 1"@
    } else if key == "hdmi2"@ {
        "HDMI 2"@
    } else {
        key
    }
}

/// The label that the menu shows for the preset named `key`.
pub fn pretty_input_label(key: &str) -> (r: &str)
    ensures
        r@ == pretty_label(key@),
{
    if same_text(key, "dp1") {
        "DisplayPort 1"
    } else if same_text(key, "dp2") {
        "DisplayPort 2"
    } else if same_text(key, "usb_c") {
        "USB-C"
    } else if same_text(key, "usbc") {
        "USB-C"
    } else if same_text(key, "hdmi1") {
        "HDMI 1"
    } else if same_text(key, "hdmi2") {
        "HDMI 2"
    } else {
        key
    }
}

/// What a written startup preference comes to once the system was told:
/// the preference stands, and a failure is noted.
pub open spec fn outcome_of_set(enabled: bool, reply: Result<(), String>) -> (bool, Option<
    Seq<char>,
>) {
    match reply {
        Ok(_) => (enabled, None),
        Err(e) => (enabled, Some(e@)),
    }
}

/// What the system's own state comes to where no preference is written:
/// the state as read, and off with the failure noted where reading failed.
pub open spec fn outcome_of_read(reply: Result<bool, String>) -> (bool, Option<Seq<char>>) {
    match reply {
        Ok(enabled) => (enabled, None),
        Err(e) => (false, Some(e@)),
    }
}

/// The flag and the failure text as contracts see them.
pub open spec fn outcome_view(out: (bool, Option<String>)) -> (bool, Option<Seq<char>>) {
    (out.0, crate::platform::optional_text(out.1))
}

/// The startup state after a written preference was handed to the system.
pub fn startup_after_set(enabled: bool, reply: Result<(), String>) -> (out: (bool, Option<String>))
    ensures
        outcome_view(out) == outcome_of_set(enabled, reply),
{
    match reply {
        Ok(()) => (enabled, None),
        Err(e) => (enabled, Some(e)),
    }
}

/// The startup state after the system's own state was read.
pub fn startup_after_read(reply: Result<bool, String>) -> (out: (bool, Option<String>))
    ensures
        outcome_view(out) == outcome_of_read(reply),
{
    match reply {
        Ok(enabled) => (enabled, None),
        Err(e) => (false, Some(e)),
    }
}

/// Brings the startup preference to bear. A written preference is handed
/// to `set_enabled` and stands whatever comes back; without one the state
/// is what `is_enabled` reads. Exactly one of the two is called, once.
pub fn apply_startup_pref<SetEnabled, IsEnabled>(
    pref: Option<bool>,
    set_enabled: SetEnabled,
    is_enabled: IsEnabled,
) -> (out: (bool, Option<String>)) where
    SetEnabled: FnOnce(bool) -> Result<(), String>,
    IsEnabled: FnOnce() -> Result<bool, String>,

    requires
        pref matches Some(enabled) ==> call_requires(set_enabled, (enabled,)),
        pref is None ==> call_requires(is_enabled, ()),
    ensures
        match pref {
            Some(enabled) => exists|reply: Result<(), String>|
                call_ensures(set_enabled, (enabled,), reply) && outcome_view(out) == outcome_of_set(
                    enabled,
                    reply,
                ),
            None => exists|reply: Result<bool, String>|
                call_ensures(is_enabled, (), reply) && outcome_view(out) == outcome_of_read(reply),
        },
{
    match pref {
        Some(enabled) => {
            let reply = set_enabled(enabled);
            startup_after_set(enabled, reply)
        },
        None => {
            let reply = is_enabled();
            startup_after_read(reply)
        },
    }
}

} // verus!
