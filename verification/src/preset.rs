//! Presets: for an operation's name, the duration and the materials that a
//! task for that operation starts from.

use vstd::prelude::*;
use crate::keyed::{distinct_keys, lemma_map_of_pair, lemma_map_of_push, lemma_map_of_remove, lemma_map_of_update, lemma_position_of, map_of, position_of};
use crate::materials::Materials;
use crate::order::{ascending, insert_ascending, texts_of};
use crate::text::{chars_contain, chars_of, i64_of_text, is_infix, lemma_nat_text_value, lowercase_of, nat_text, parse_i64, to_lowercase, u64_text};

verus! {

/// The defaults of an operation.
pub struct TaskPreset {
    /// The expected duration, in minutes.
    pub duration_minutes: i64,
    /// The materials that the operation needs.
    pub materials: Materials,
}

/// A preset as a value: its duration and the quantity text of each material.
pub struct PresetView {
    pub duration_minutes: i64,
    pub materials: Map<Seq<char>, Seq<char>>,
}

impl TaskPreset {
    /// The preset as a value.
    pub open spec fn view(&self) -> PresetView {
        PresetView { duration_minutes: self.duration_minutes, materials: self.materials@ }
    }
}

impl Clone for TaskPreset {
    fn clone(&self) -> (preset: Self)
        ensures
            preset@ == self@,
            preset.duration_minutes == self.duration_minutes,
            preset.materials.pairs() == self.materials.pairs(),
    {
        TaskPreset { duration_minutes: self.duration_minutes, materials: self.materials.clone() }
    }
}

/// The pairs of `v` with each name as a sequence of characters and each
/// preset as a value.
pub open spec fn presets_of(v: Seq<(String, TaskPreset)>) -> Seq<(Seq<char>, PresetView)> {
    Seq::new(v.len(), |i: int| (v[i].0@, v[i].1@))
}

/// The presets, each under the name of its operation.
pub struct PresetStore {
    entries: Vec<(String, TaskPreset)>,
}

impl PresetStore {
    /// The pairs of operation name and preset, in the order of entry.
    pub closed spec fn pairs(&self) -> Seq<(Seq<char>, PresetView)> {
        presets_of(self.entries@)
    }

    /// No operation name occurs twice.
    #[verifier::type_invariant]
    pub closed spec fn wf(&self) -> bool {
        distinct_keys(self.pairs())
    }

    /// The preset of each operation name.
    pub open spec fn view(&self) -> Map<Seq<char>, PresetView> {
        map_of(self.pairs())
    }

    /// A well-formed store has distinct operation names.
    pub proof fn lemma_wf(&self)
        requires
            self.wf(),
        ensures
            distinct_keys(self.pairs()),
    {
    }

    /// A store without presets.
    pub fn new() -> (store: PresetStore)
        ensures
            store.pairs() == Seq::<(Seq<char>, PresetView)>::empty(),
            store@ == Map::<Seq<char>, PresetView>::empty(),
            store.wf(),
    {
        let store = PresetStore { entries: Vec::new() };
        assert(store.pairs() =~= Seq::<(Seq<char>, PresetView)>::empty());
        assert(store@ =~= Map::<Seq<char>, PresetView>::empty());
        store
    }

    /// How many presets there are.
    pub fn len(&self) -> (n: usize)
        ensures
            n == self.pairs().len(),
            self.wf(),
    {
        proof {
            use_type_invariant(self);
        }
        self.entries.len()
    }

    /// The operation name at position `i` in the order of entry.
    pub fn name_at(&self, i: usize) -> (name: &String)
        requires
            i < self.pairs().len(),
        ensures
            name@ == self.pairs()[i as int].0,
    {
        &self.entries[i].0
    }

    /// The preset at position `i` in the order of entry.
    pub fn preset_at(&self, i: usize) -> (preset: &TaskPreset)
        requires
            i < self.pairs().len(),
        ensures
            preset@ == self.pairs()[i as int].1,
    {
        &self.entries[i].1
    }

    /// The position of the operation `name`, if it has a preset.
    pub fn position(&self, name: &str) -> (r: Option<usize>)
        ensures
            self.wf(),
            r is Some <==> self@.contains_key(name@),
            r matches Some(i) ==> i < self.pairs().len() && self.pairs()[i as int].0 == name@
                && self.pairs()[i as int].1 == self@[name@] && position_of(self.pairs(), name@)
                == Some(i as int),
            r is None ==> position_of(self.pairs(), name@) is None,
    {
        proof {
            use_type_invariant(self);
            lemma_position_of(self.pairs(), name@);
        }
        let mut i: usize = 0;
        while i < self.entries.len()
            invariant
                self.wf(),
                0 <= i <= self.entries@.len(),
                forall|j: int| 0 <= j < i ==> (#[trigger] self.pairs()[j]).0 != name@,
            decreases self.entries@.len() - i,
        {
            if self.entries[i].0.as_str().eq(name) {
                proof {
                    assert(self.pairs()[i as int].0 == name@);
                    lemma_map_of_pair(self.pairs(), i as int);
                    let p = position_of(self.pairs(), name@).unwrap();
                    assert(self.pairs()[p].0 == self.pairs()[i as int].0);
                }
                return Some(i);
            }
            i += 1;
        }
        None
    }

    /// The preset of the operation `name`, if it has one.
    pub fn get(&self, name: &str) -> (r: Option<&TaskPreset>)
        ensures
            r is Some <==> self@.contains_key(name@),
            r matches Some(preset) ==> preset@ == self@[name@],
    {
        match self.position(name) {
            Some(i) => Some(&self.entries[i].1),
            None => None,
        }
    }

    /// Whether the operation `name` has a preset.
    pub fn contains_key(&self, name: &str) -> (b: bool)
        ensures
            b == self@.contains_key(name@),
    {
        self.position(name).is_some()
    }

    /// Every operation name with its preset, in the order of entry.
    pub fn all(&self) -> (entries: Vec<(String, TaskPreset)>)
        ensures
            presets_of(entries@) == self.pairs(),
    {
        let mut entries: Vec<(String, TaskPreset)> = Vec::new();
        let mut i: usize = 0;
        while i < self.entries.len()
            invariant
                0 <= i <= self.entries@.len(),
                entries@.len() == i,
                forall|j: int|
                    0 <= j < i ==> (#[trigger] entries@[j]).0@ == self.entries@[j].0@
                        && entries@[j].1@ == self.entries@[j].1@,
            decreases self.entries@.len() - i,
        {
            entries.push((self.entries[i].0.clone(), self.entries[i].1.clone()));
            i += 1;
        }
        assert(presets_of(entries@) =~= self.pairs());
        entries
    }

    /// Stores `preset` as the preset of the operation `name`, in place of the
    /// one that it had, if it had one; the other presets stay as they are.
    pub fn upsert(&mut self, name: String, preset: TaskPreset)
        ensures
            final(self).wf(),
            final(self)@ == old(self)@.insert(name@, preset@),
            final(self).pairs() == (match position_of(old(self).pairs(), name@) {
                Some(i) => old(self).pairs().update(i, (name@, preset@)),
                None => old(self).pairs().push((name@, preset@)),
            }),
    {
        let found = self.position(name.as_str());
        let ghost before = self.pairs();
        let mut entries: Vec<(String, TaskPreset)> = Vec::new();
        match found {
            Some(i) => {
                proof {
                    lemma_map_of_update(before, i as int, preset@);
                    assert(presets_of(self.entries@.update(i as int, (name, preset)))
                        =~= before.update(i as int, (name@, preset@)));
                }
                core::mem::swap(&mut self.entries, &mut entries);
                entries.set(i, (name, preset));
                self.entries = entries;
            },
            None => {
                proof {
                    lemma_map_of_push(before, name@, preset@);
                    assert(presets_of(self.entries@.push((name, preset))) =~= before.push(
                        (name@, preset@),
                    ));
                }
                core::mem::swap(&mut self.entries, &mut entries);
                entries.push((name, preset));
                self.entries = entries;
            },
        }
    }

    /// Takes the preset of the operation `name` out, if it has one; the other
    /// presets stay as they are. Says whether there was one.
    pub fn delete(&mut self, name: &str) -> (found: bool)
        ensures
            final(self).wf(),
            final(self)@ == old(self)@.remove(name@),
            found == old(self)@.contains_key(name@),
            final(self).pairs() == (match position_of(old(self).pairs(), name@) {
                Some(i) => old(self).pairs().remove(i),
                None => old(self).pairs(),
            }),
    {
        let found = self.position(name);
        let ghost before = self.pairs();
        match found {
            Some(i) => {
                proof {
                    lemma_map_of_remove(before, i as int);
                    assert(presets_of(self.entries@.remove(i as int)) =~= before.remove(i as int));
                }
                let mut entries: Vec<(String, TaskPreset)> = Vec::new();
                core::mem::swap(&mut self.entries, &mut entries);
                let _ = entries.remove(i);
                self.entries = entries;
                true
            },
            None => {
                assert(self@ =~= self@.remove(name@));
                false
            },
        }
    }
}

/// The name that the `k`-th try gives to a new row of materials:
/// `New Material`, then `New Material 1`, `New Material 2` and so on.
pub open spec fn row_name(k: nat) -> Seq<char> {
    if k == 0 {
        "New Material"@
    } else {
        "New Material "@ + nat_text(k)
    }
}

/// Whether the `k`-th try is the first whose name is not among `names`.
pub open spec fn first_free_row(names: Set<Seq<char>>, k: nat) -> bool {
    &&& !names.contains(row_name(k))
    &&& forall|j: nat| j < k ==> names.contains(#[trigger] row_name(j))
}

/// Different tries give different names.
pub proof fn lemma_row_names_differ(j: nat, k: nat)
    requires
        j != k,
    ensures
        row_name(j) != row_name(k),
{
    reveal_strlit("New Material");
    reveal_strlit("New Material ");
    lemma_nat_text_value(j);
    lemma_nat_text_value(k);
    if j != 0 && k != 0 {
        let head = "New Material "@;
        if row_name(j) == row_name(k) {
            assert((head + nat_text(j)).skip(13) =~= nat_text(j));
            assert((head + nat_text(k)).skip(13) =~= nat_text(k));
        }
    } else if j == 0 {
        assert(row_name(k).len() >= 14);
    } else {
        assert(row_name(j).len() >= 14);
    }
}

/// The names of the first `m` tries.
pub open spec fn row_names(m: nat) -> Set<Seq<char>> {
    Set::new(|t: Seq<char>| exists|j: nat| j < m && t == #[trigger] row_name(j))
}

/// The first `m` tries give `m` names.
pub proof fn lemma_row_names_len(m: nat)
    ensures
        row_names(m).finite(),
        row_names(m).len() == m,
    decreases m,
{
    if m == 0 {
        assert(row_names(0) =~= Set::<Seq<char>>::empty());
    } else {
        let k = (m - 1) as nat;
        lemma_row_names_len(k);
        assert(!row_names(k).contains(row_name(k))) by {
            if row_names(k).contains(row_name(k)) {
                let j = choose|j: nat| j < k && row_name(k) == #[trigger] row_name(j);
                lemma_row_names_differ(j, k);
            }
        }
        assert(row_names(m) =~= row_names(k).insert(row_name(k))) by {
            assert forall|t: Seq<char>| row_names(m).contains(t) implies row_names(k).insert(
                row_name(k),
            ).contains(t) by {
                let j = choose|j: nat| j < m && t == #[trigger] row_name(j);
                if j < k {
                    assert(row_names(k).contains(t));
                }
            }
            assert forall|t: Seq<char>| row_names(k).insert(row_name(k)).contains(
                t,
            ) implies row_names(m).contains(t) by {
                if t == row_name(k) {
                    assert(k < m && t == row_name(k));
                } else {
                    let j = choose|j: nat| j < k && t == #[trigger] row_name(j);
                    assert(j < m && t == row_name(j));
                }
            }
        }
    }
}

/// Among the first tries, one more than there are names in `names`, one
/// gives a name that is not in `names`.
pub proof fn lemma_some_row_is_free(names: Set<Seq<char>>, n: nat)
    requires
        names.finite(),
        names.len() <= n,
    ensures
        exists|j: nat| j <= n && !names.contains(#[trigger] row_name(j)),
{
    if forall|j: nat| j <= n ==> names.contains(#[trigger] row_name(j)) {
        lemma_row_names_len(n + 1);
        assert(row_names(n + 1).subset_of(names)) by {
            assert forall|t: Seq<char>| row_names(n + 1).contains(t) implies names.contains(t) by {
                let j = choose|j: nat| j < n + 1 && t == #[trigger] row_name(j);
                assert(names.contains(row_name(j)));
            }
        }
        vstd::set_lib::lemma_len_subset(row_names(n + 1), names);
    }
}

/// The name for a new row of `materials`: that of the first try which gives
/// a name that `materials` does not have.
pub fn free_row_name(materials: &Materials) -> (name: String)
    ensures
        exists|k: nat| name@ == #[trigger] row_name(k) && first_free_row(materials@.dom(), k),
{
    let n = materials.len();
    proof {
        materials.lemma_wf();
        crate::keyed::lemma_map_of_finite(materials.pairs());
    }
    let mut name = String::from_str("New Material");
    let mut k: usize = 0;
    while materials.contains_key(name.as_str())
        invariant
            n == materials.pairs().len(),
            materials@.dom().finite(),
            materials@.dom().len() <= n,
            k <= n,
            name@ == row_name(k as nat),
            forall|j: nat| j < k ==> materials@.dom().contains(#[trigger] row_name(j)),
        decreases n - k,
    {
        proof {
            if k == n {
                lemma_some_row_is_free(materials@.dom(), n as nat);
                let j = choose|j: nat| j <= n && !materials@.dom().contains(#[trigger] row_name(j));
                assert(false);
            }
        }
        k += 1;
        name = String::from_str("New Material ");
        name.append(u64_text(k as u64).as_str());
    }
    assert(first_free_row(materials@.dom(), k as nat));
    name
}

/// Whether a preset with the materials `materials` passes the filter on
/// materials: the filter is empty, or it occurs in the name of one of the
/// materials, both taken in lower case.
pub open spec fn materials_pass(materials: Map<Seq<char>, Seq<char>>, filter: Seq<char>) -> bool {
    lowercase_of(filter).len() == 0 || exists|m: Seq<char>|
        materials.contains_key(m) && is_infix(lowercase_of(filter), #[trigger] lowercase_of(m))
}

/// Whether the preset `preset` of the operation `name` passes the two
/// filters: the operation filter occurs in the operation's name, both taken
/// in lower case, and the materials pass the filter on materials.
pub open spec fn passes(
    name: Seq<char>,
    preset: PresetView,
    operation_filter: Seq<char>,
    material_filter: Seq<char>,
) -> bool {
    is_infix(lowercase_of(operation_filter), lowercase_of(name)) && materials_pass(
        preset.materials,
        material_filter,
    )
}

/// A preset as the filters see it: the operation's name as it is written,
/// and in lower case that name and the names of the preset's materials.
pub struct LoweredPreset {
    pub name: String,
    pub lowered_name: String,
    pub lowered_materials: Vec<String>,
}

/// A `LoweredPreset` with its texts as sequences of characters.
pub struct LoweredView {
    pub name: Seq<char>,
    pub lowered_name: Seq<char>,
    pub lowered_materials: Seq<Seq<char>>,
}

impl LoweredPreset {
    /// The value with its texts as sequences of characters.
    pub open spec fn view(&self) -> LoweredView {
        LoweredView {
            name: self.name@,
            lowered_name: self.lowered_name@,
            lowered_materials: texts_of(self.lowered_materials@),
        }
    }
}

/// The values of `v` with their texts as sequences of characters.
pub open spec fn lowered_of(v: Seq<LoweredPreset>) -> Seq<LoweredView> {
    Seq::new(v.len(), |i: int| v[i]@)
}

/// Whether `filter` occurs in one of `texts`.
pub open spec fn some_text_has(texts: Seq<Seq<char>>, filter: Seq<char>) -> bool {
    exists|k: int| 0 <= k < texts.len() && is_infix(filter, #[trigger] texts[k])
}

/// Whether `entry` passes the two filters, all texts being in lower case
/// already: the operation filter occurs in the operation's name, and the
/// filter on materials is empty or occurs in the name of a material.
pub open spec fn lowered_passes(
    entry: LoweredView,
    operation_filter: Seq<char>,
    material_filter: Seq<char>,
) -> bool {
    is_infix(operation_filter, entry.lowered_name) && (material_filter.len() == 0
        || some_text_has(entry.lowered_materials, material_filter))
}

/// Whether `text` is the name of one of `materials` in lower case.
pub open spec fn lowered_from(text: Seq<char>, materials: Map<Seq<char>, Seq<char>>) -> bool {
    exists|m: Seq<char>| materials.contains_key(m) && text == #[trigger] lowercase_of(m)
}

/// Whether `entry` is the preset `preset` of the operation `name` as the
/// filters see it.
pub open spec fn lowers(entry: LoweredView, name: Seq<char>, preset: PresetView) -> bool {
    &&& entry.name == name
    &&& entry.lowered_name == lowercase_of(name)
    &&& forall|k: int|
        0 <= k < entry.lowered_materials.len() ==> lowered_from(
            #[trigger] entry.lowered_materials[k],
            preset.materials,
        )
    &&& forall|m: Seq<char>|
        preset.materials.contains_key(m) ==> entry.lowered_materials.contains(
            #[trigger] lowercase_of(m),
        )
}

/// A preset passes the filters exactly when what the filters see of it
/// passes the filters taken in lower case.
pub proof fn lemma_lowered_passes(
    entry: LoweredView,
    name: Seq<char>,
    preset: PresetView,
    operation_filter: Seq<char>,
    material_filter: Seq<char>,
)
    requires
        lowers(entry, name, preset),
    ensures
        lowered_passes(entry, lowercase_of(operation_filter), lowercase_of(material_filter))
            <==> passes(name, preset, operation_filter, material_filter),
{
    let f = lowercase_of(material_filter);
    if some_text_has(entry.lowered_materials, f) {
        let k = choose|k: int|
            0 <= k < entry.lowered_materials.len() && is_infix(
                f,
                #[trigger] entry.lowered_materials[k],
            );
        assert(lowered_from(entry.lowered_materials[k], preset.materials));
        let m = choose|m: Seq<char>|
            preset.materials.contains_key(m) && entry.lowered_materials[k]
                == #[trigger] lowercase_of(m);
        assert(preset.materials.contains_key(m) && is_infix(f, lowercase_of(m)));
    }
    if exists|m: Seq<char>|
        preset.materials.contains_key(m) && is_infix(f, #[trigger] lowercase_of(m)) {
        let m = choose|m: Seq<char>|
            preset.materials.contains_key(m) && is_infix(f, #[trigger] lowercase_of(m));
        assert(entry.lowered_materials.contains(lowercase_of(m)));
        let k = choose|k: int|
            0 <= k < entry.lowered_materials.len() && entry.lowered_materials[k] == lowercase_of(
                m,
            );
        assert(is_infix(f, entry.lowered_materials[k]));
    }
}

/// Whether `filter` occurs in one of `texts`.
pub fn texts_contain(texts: &Vec<String>, filter: &str) -> (b: bool)
    ensures
        b == some_text_has(texts_of(texts@), filter@),
{
    let needle = chars_of(filter);
    let mut k: usize = 0;
    while k < texts.len()
        invariant
            0 <= k <= texts@.len(),
            needle@ == filter@,
            forall|j: int| 0 <= j < k ==> !is_infix(filter@, #[trigger] texts_of(texts@)[j]),
        decreases texts@.len() - k,
    {
        assert(texts_of(texts@)[k as int] == texts@[k as int]@);
        if chars_contain(&chars_of(texts[k].as_str()), &needle) {
            return true;
        }
        k += 1;
    }
    false
}

/// The names of the operations whose presets pass the two filters, in
/// dictionary order. The texts are compared as they stand: `entries` holds
/// in lower case what the filters look at, and the filters are in lower case
/// already.
pub fn names_passing(entries: &Vec<LoweredPreset>, operation_filter: &str, material_filter: &str)
    -> (names: Vec<String>)
    ensures
        ascending(texts_of(names@)),
        forall|t: Seq<char>|
            texts_of(names@).contains(t) <==> exists|j: int|
                0 <= j < entries@.len() && (#[trigger] lowered_of(entries@)[j]).name == t
                    && lowered_passes(lowered_of(entries@)[j], operation_filter@, material_filter@),
{
    let needle = chars_of(operation_filter);
    let no_material_filter = chars_of(material_filter).len() == 0;
    let mut names: Vec<String> = Vec::new();
    let mut i: usize = 0;
    while i < entries.len()
        invariant
            0 <= i <= entries@.len(),
            needle@ == operation_filter@,
            no_material_filter == (material_filter@.len() == 0),
            ascending(texts_of(names@)),
            forall|t: Seq<char>|
                texts_of(names@).contains(t) <==> exists|j: int|
                    0 <= j < i && (#[trigger] lowered_of(entries@)[j]).name == t && lowered_passes(
                        lowered_of(entries@)[j],
                        operation_filter@,
                        material_filter@,
                    ),
        decreases entries@.len() - i,
    {
        let entry = &entries[i];
        assert(lowered_of(entries@)[i as int] == entry@);
        let shown = chars_contain(&chars_of(entry.lowered_name.as_str()), &needle) && (
        no_material_filter || texts_contain(&entry.lowered_materials, material_filter));
        assert(shown == lowered_passes(entry@, operation_filter@, material_filter@));
        let ghost had = texts_of(names@);
        if shown {
            insert_ascending(&mut names, entry.name.clone());
        }
        proof {
            assert forall|t: Seq<char>| texts_of(names@).contains(t) <==> exists|j: int|
                0 <= j < i + 1 && (#[trigger] lowered_of(entries@)[j]).name == t && lowered_passes(
                    lowered_of(entries@)[j],
                    operation_filter@,
                    material_filter@,
                ) by {
                if had.contains(t) {
                    let j = choose|j: int|
                        0 <= j < i && (#[trigger] lowered_of(entries@)[j]).name == t
                            && lowered_passes(
                            lowered_of(entries@)[j],
                            operation_filter@,
                            material_filter@,
                        );
                    assert(0 <= j < i + 1 && lowered_of(entries@)[j].name == t);
                }
                if shown && t == entry.name@ {
                    assert(lowered_of(entries@)[i as int].name == t);
                }
                if exists|j: int|
                    0 <= j < i + 1 && (#[trigger] lowered_of(entries@)[j]).name == t
                        && lowered_passes(
                        lowered_of(entries@)[j],
                        operation_filter@,
                        material_filter@,
                    ) {
                    let j = choose|j: int|
                        0 <= j < i + 1 && (#[trigger] lowered_of(entries@)[j]).name == t
                            && lowered_passes(
                            lowered_of(entries@)[j],
                            operation_filter@,
                            material_filter@,
                        );
                    if j < i {
                        assert(had.contains(t));
                    }
                }
            }
        }
        i += 1;
    }
    names
}

/// The names of `materials` in lower case, in the order of entry.
fn lowered_names(materials: &Materials) -> (lowered: Vec<String>)
    ensures
        lowered@.len() == materials.pairs().len(),
        forall|k: int|
            0 <= k < lowered@.len() ==> (#[trigger] texts_of(lowered@)[k]) == lowercase_of(
                materials.pairs()[k].0,
            ),
{
    let n = materials.len();
    let mut lowered: Vec<String> = Vec::new();
    let mut k: usize = 0;
    while k < n
        invariant
            n == materials.pairs().len(),
            0 <= k <= n,
            lowered@.len() == k,
            forall|j: int|
                0 <= j < k ==> (#[trigger] texts_of(lowered@)[j]) == lowercase_of(
                    materials.pairs()[j].0,
                ),
        decreases n - k,
    {
        let ghost had = texts_of(lowered@);
        lowered.push(to_lowercase(materials.name_at(k).as_str()));
        assert forall|j: int| 0 <= j < k + 1 implies (#[trigger] texts_of(lowered@)[j])
            == lowercase_of(materials.pairs()[j].0) by {
            if j < k {
                assert(texts_of(lowered@)[j] == had[j]);
            }
        }
        k += 1;
    }
    lowered
}

/// What the filters see of the preset `preset` of the operation `name`.
fn lowered_preset(name: &String, preset: &TaskPreset) -> (entry: LoweredPreset)
    ensures
        lowers(entry@, name@, preset@),
{
    let lowered_materials = lowered_names(&preset.materials);
    let entry = LoweredPreset {
        name: name.clone(),
        lowered_name: to_lowercase(name.as_str()),
        lowered_materials,
    };
    proof {
        let pairs = preset.materials.pairs();
        let texts = entry@.lowered_materials;
        assert forall|k: int| 0 <= k < texts.len() implies lowered_from(
            #[trigger] texts[k],
            preset@.materials,
        ) by {
            let m = pairs[k].0;
            assert(crate::keyed::has_key(pairs, m));
            assert(preset@.materials.contains_key(m));
            assert(texts[k] == lowercase_of(m));
        }
        assert forall|m: Seq<char>| preset@.materials.contains_key(m) implies texts.contains(
            #[trigger] lowercase_of(m),
        ) by {
            let k = choose|k: int| 0 <= k < pairs.len() && (#[trigger] pairs[k]).0 == m;
            assert(texts[k] == lowercase_of(m));
        }
        assert(entry@.name == name@);
        assert(entry@.lowered_name == lowercase_of(name@));
    }
    entry
}

impl PresetStore {
    /// Sets the duration of the operation `name` to the integer that `text`
    /// spells. Nothing changes where the operation has no preset or `text`
    /// spells no integer that fits. Says whether the duration was set.
    pub fn set_duration(&mut self, name: &str, text: &str) -> (changed: bool)
        ensures
            final(self).wf(),
            changed == (old(self)@.contains_key(name@) && i64_of_text(text@) is Some),
            final(self)@ == (if changed {
                old(self)@.insert(
                    name@,
                    PresetView {
                        duration_minutes: i64_of_text(text@).unwrap(),
                        materials: old(self)@[name@].materials,
                    },
                )
            } else {
                old(self)@
            }),
    {
        match (self.position(name), parse_i64(text)) {
            (Some(i), Some(duration_minutes)) => {
                let materials = self.entries[i].1.materials.clone();
                let key = self.entries[i].0.clone();
                self.upsert(key, TaskPreset { duration_minutes, materials });
                true
            },
            _ => false,
        }
    }

    /// Gives the material `material` of the operation `name` the quantity
    /// text `quantity`, adding the material where the preset does not have
    /// it. Nothing changes where the operation has no preset. Says whether it
    /// has one.
    pub fn set_material(&mut self, name: &str, material: String, quantity: String) -> (found: bool)
        ensures
            final(self).wf(),
            found == old(self)@.contains_key(name@),
            final(self)@ == (if found {
                old(self)@.insert(
                    name@,
                    PresetView {
                        duration_minutes: old(self)@[name@].duration_minutes,
                        materials: old(self)@[name@].materials.insert(material@, quantity@),
                    },
                )
            } else {
                old(self)@
            }),
    {
        match self.position(name) {
            Some(i) => {
                let mut preset = self.entries[i].1.clone();
                let _ = preset.materials.insert(material, quantity);
                let key = self.entries[i].0.clone();
                self.upsert(key, preset);
                true
            },
            None => false,
        }
    }

    /// Takes the material `material` out of the preset of the operation
    /// `name`. Nothing changes where the operation has no preset. Says
    /// whether it has one.
    pub fn delete_material(&mut self, name: &str, material: &str) -> (found: bool)
        ensures
            final(self).wf(),
            found == old(self)@.contains_key(name@),
            final(self)@ == (if found {
                old(self)@.insert(
                    name@,
                    PresetView {
                        duration_minutes: old(self)@[name@].duration_minutes,
                        materials: old(self)@[name@].materials.remove(material@),
                    },
                )
            } else {
                old(self)@
            }),
    {
        match self.position(name) {
            Some(i) => {
                let mut preset = self.entries[i].1.clone();
                let _ = preset.materials.remove(material);
                let key = self.entries[i].0.clone();
                self.upsert(key, preset);
                true
            },
            None => false,
        }
    }

    /// Renames the material `from` of the operation `name` to `to`, keeping
    /// its quantity text. Nothing changes where the operation has no preset,
    /// where its preset has a material named `to` already, or where it has
    /// none named `from`. Says whether the material was renamed.
    pub fn rename_material(&mut self, name: &str, from: &str, to: String) -> (changed: bool)
        ensures
            final(self).wf(),
            changed == (old(self)@.contains_key(name@) && !old(self)@[name@].materials.contains_key(
                to@,
            ) && old(self)@[name@].materials.contains_key(from@)),
            final(self)@ == (if changed {
                old(self)@.insert(
                    name@,
                    PresetView {
                        duration_minutes: old(self)@[name@].duration_minutes,
                        materials: old(self)@[name@].materials.remove(from@).insert(
                            to@,
                            old(self)@[name@].materials[from@],
                        ),
                    },
                )
            } else {
                old(self)@
            }),
    {
        match self.position(name) {
            Some(i) => {
                if self.entries[i].1.materials.contains_key(to.as_str()) {
                    return false;
                }
                let mut preset = self.entries[i].1.clone();
                match preset.materials.remove(from) {
                    Some(quantity) => {
                        let _ = preset.materials.insert(to, quantity);
                        let key = self.entries[i].0.clone();
                        self.upsert(key, preset);
                        true
                    },
                    None => false,
                }
            },
            None => false,
        }
    }

    /// Adds a material with the quantity `0` to the preset of the operation
    /// `name`, under the first of the names `New Material`,
    /// `New Material 1`, `New Material 2` and so on that the preset does not
    /// have. Nothing changes where the operation has no preset. Says whether
    /// it has one.
    pub fn add_material(&mut self, name: &str) -> (found: bool)
        ensures
            final(self).wf(),
            found == old(self)@.contains_key(name@),
            !found ==> final(self)@ == old(self)@,
            found ==> exists|k: nat|
                first_free_row(old(self)@[name@].materials.dom(), k) && final(self)@ == old(
                    self,
                )@.insert(
                    name@,
                    PresetView {
                        duration_minutes: old(self)@[name@].duration_minutes,
                        materials: old(self)@[name@].materials.insert(
                            #[trigger] row_name(k),
                            "0"@,
                        ),
                    },
                ),
    {
        match self.position(name) {
            Some(i) => {
                let mut preset = self.entries[i].1.clone();
                let row = free_row_name(&preset.materials);
                let ghost k = choose|k: nat|
                    row@ == #[trigger] row_name(k) && first_free_row(preset.materials@.dom(), k);
                let _ = preset.materials.insert(row, String::from_str("0"));
                let key = self.entries[i].0.clone();
                self.upsert(key, preset);
                assert(first_free_row(old(self)@[name@].materials.dom(), k) && self@ == old(
                    self,
                )@.insert(
                    name@,
                    PresetView {
                        duration_minutes: old(self)@[name@].duration_minutes,
                        materials: old(self)@[name@].materials.insert(row_name(k), "0"@),
                    },
                ));
                true
            },
            None => false,
        }
    }

    /// What the filters see of each preset, in the order of entry.
    pub fn lowered(&self) -> (entries: Vec<LoweredPreset>)
        ensures
            entries@.len() == self.pairs().len(),
            forall|j: int|
                0 <= j < entries@.len() ==> lowers(
                    #[trigger] lowered_of(entries@)[j],
                    self.pairs()[j].0,
                    self.pairs()[j].1,
                ),
    {
        let mut entries: Vec<LoweredPreset> = Vec::new();
        let mut i: usize = 0;
        while i < self.entries.len()
            invariant
                0 <= i <= self.entries@.len(),
                entries@.len() == i,
                forall|j: int|
                    0 <= j < i ==> lowers(
                        #[trigger] lowered_of(entries@)[j],
                        self.pairs()[j].0,
                        self.pairs()[j].1,
                    ),
            decreases self.entries@.len() - i,
        {
            let ghost had = lowered_of(entries@);
            let entry = lowered_preset(&self.entries[i].0, &self.entries[i].1);
            assert(self.pairs()[i as int] == (self.entries@[i as int].0@, self.entries@[i as int].1@));
            entries.push(entry);
            assert forall|j: int| 0 <= j < i + 1 implies lowers(
                #[trigger] lowered_of(entries@)[j],
                self.pairs()[j].0,
                self.pairs()[j].1,
            ) by {
                if j < i {
                    assert(lowered_of(entries@)[j] == had[j]);
                }
            }
            i += 1;
        }
        entries
    }

    /// The names of the operations whose presets pass the two filters, in
    /// dictionary order. Filters and names are compared in lower case.
    pub fn visible_names(&self, operation_filter: &str, material_filter: &str) -> (names: Vec<
        String,
    >)
        ensures
            ascending(texts_of(names@)),
            forall|t: Seq<char>|
                texts_of(names@).contains(t) <==> (self@.contains_key(t) && passes(
                    t,
                    self@[t],
                    operation_filter@,
                    material_filter@,
                )),
    {
        let entries = self.lowered();
        let op = to_lowercase(operation_filter);
        let mat = to_lowercase(material_filter);
        let names = names_passing(&entries, op.as_str(), mat.as_str());
        proof {
            use_type_invariant(self);
            let seen = lowered_of(entries@);
            let pairs = self.pairs();
            assert forall|t: Seq<char>| texts_of(names@).contains(t) <==> (self@.contains_key(t)
                && passes(t, self@[t], operation_filter@, material_filter@)) by {
                if texts_of(names@).contains(t) {
                    let j = choose|j: int|
                        0 <= j < entries@.len() && (#[trigger] seen[j]).name == t
                            && lowered_passes(seen[j], op@, mat@);
                    assert(lowers(seen[j], pairs[j].0, pairs[j].1));
                    lemma_map_of_pair(pairs, j);
                    lemma_lowered_passes(
                        seen[j],
                        pairs[j].0,
                        pairs[j].1,
                        operation_filter@,
                        material_filter@,
                    );
                }
                if self@.contains_key(t) && passes(
                    t,
                    self@[t],
                    operation_filter@,
                    material_filter@,
                ) {
                    let j = choose|j: int| 0 <= j < pairs.len() && (#[trigger] pairs[j]).0 == t;
                    lemma_map_of_pair(pairs, j);
                    assert(lowers(seen[j], pairs[j].0, pairs[j].1));
                    lemma_lowered_passes(
                        seen[j],
                        pairs[j].0,
                        pairs[j].1,
                        operation_filter@,
                        material_filter@,
                    );
                    assert(seen[j].name == t && lowered_passes(seen[j], op@, mat@));
                }
            }
        }
        names
    }
}

} // verus!
