//! What would change if a preset were replaced by a candidate: the report
//! that is shown before the replacement is confirmed. Making a report changes
//! nothing.

use vstd::prelude::*;
use crate::materials::Materials;
use crate::order::{ascending, insert_ascending, lemma_ascending_determined, texts_of};
use crate::preset::{PresetView, TaskPreset};
use crate::text::{i64_text, int_text};

verus! {

/// How the entry of one material differs between two presets.
pub enum MaterialChange {
    /// Both have the material, with different quantity texts.
    Changed { name: String, before: String, after: String },
    /// Only the existing preset has the material.
    Removed { name: String, before: String },
    /// Only the candidate has the material.
    Added { name: String, after: String },
}

/// A `MaterialChange` with its texts as sequences of characters.
pub enum ChangeView {
    Changed { name: Seq<char>, before: Seq<char>, after: Seq<char> },
    Removed { name: Seq<char>, before: Seq<char> },
    Added { name: Seq<char>, after: Seq<char> },
}

impl ChangeView {
    /// The material that the change is about.
    pub open spec fn name(self) -> Seq<char> {
        match self {
            ChangeView::Changed { name, .. } => name,
            ChangeView::Removed { name, .. } => name,
            ChangeView::Added { name, .. } => name,
        }
    }

    /// The change as a line of text.
    pub open spec fn line(self) -> Seq<char> {
        match self {
            ChangeView::Changed { name, before, after } => name + ": "@ + before + " -> "@ + after,
            ChangeView::Removed { name, before } => "Removed "@ + name + ": "@ + before,
            ChangeView::Added { name, after } => "Added "@ + name + ": "@ + after,
        }
    }
}

impl MaterialChange {
    /// The change with its texts as sequences of characters.
    pub open spec fn view(&self) -> ChangeView {
        match *self {
            MaterialChange::Changed { name, before, after } => ChangeView::Changed {
                name: name@,
                before: before@,
                after: after@,
            },
            MaterialChange::Removed { name, before } => ChangeView::Removed {
                name: name@,
                before: before@,
            },
            MaterialChange::Added { name, after } => ChangeView::Added { name: name@, after: after@ },
        }
    }

    /// The material that the change is about.
    pub fn name(&self) -> (name: &String)
        ensures
            name@ == self@.name(),
    {
        match self {
            MaterialChange::Changed { name, .. } => name,
            MaterialChange::Removed { name, .. } => name,
            MaterialChange::Added { name, .. } => name,
        }
    }

    /// The change as a line of text: `name: before -> after`,
    /// `Removed name: before` or `Added name: after`.
    pub fn describe(&self) -> (line: String)
        ensures
            line@ == self@.line(),
    {
        match self {
            MaterialChange::Changed { name, before, after } => {
                let mut line = name.clone();
                line.append(": ");
                line.append(before.as_str());
                line.append(" -> ");
                line.append(after.as_str());
                line
            },
            MaterialChange::Removed { name, before } => {
                let mut line = String::from_str("Removed ");
                line.append(name.as_str());
                line.append(": ");
                line.append(before.as_str());
                line
            },
            MaterialChange::Added { name, after } => {
                let mut line = String::from_str("Added ");
                line.append(name.as_str());
                line.append(": ");
                line.append(after.as_str());
                line
            },
        }
    }
}

/// How the material `name` differs between the materials `before` and
/// `after`: nothing where neither has it or both have it with the same text.
pub open spec fn change_of(
    before: Map<Seq<char>, Seq<char>>,
    after: Map<Seq<char>, Seq<char>>,
    name: Seq<char>,
) -> Option<ChangeView> {
    if before.contains_key(name) && after.contains_key(name) {
        if before[name] == after[name] {
            None
        } else {
            Some(ChangeView::Changed { name, before: before[name], after: after[name] })
        }
    } else if before.contains_key(name) {
        Some(ChangeView::Removed { name, before: before[name] })
    } else if after.contains_key(name) {
        Some(ChangeView::Added { name, after: after[name] })
    } else {
        None
    }
}

/// The materials that the changes of `changes` are about, in order.
pub open spec fn names_of(changes: Seq<ChangeView>) -> Seq<Seq<char>> {
    Seq::new(changes.len(), |i: int| changes[i].name())
}

/// The changes of `v` with their texts as sequences of characters.
pub open spec fn changes_of(v: Seq<MaterialChange>) -> Seq<ChangeView> {
    Seq::new(v.len(), |i: int| v[i]@)
}

/// Whether `changes` lists how `before` and `after` differ: one entry for
/// each material that differs, saying how, and the entries in the dictionary
/// order of their materials.
pub open spec fn lists_changes(
    changes: Seq<ChangeView>,
    before: Map<Seq<char>, Seq<char>>,
    after: Map<Seq<char>, Seq<char>>,
) -> bool {
    &&& ascending(names_of(changes))
    &&& forall|i: int|
        0 <= i < changes.len() ==> change_of(before, after, (#[trigger] changes[i]).name())
            == Some(changes[i])
    &&& forall|name: Seq<char>|
        (#[trigger] change_of(before, after, name)) is Some ==> names_of(changes).contains(name)
}

/// The names of `before` and of `after`, each once, in dictionary order.
pub fn sorted_names(before: &Materials, after: &Materials) -> (names: Vec<String>)
    ensures
        ascending(texts_of(names@)),
        forall|t: Seq<char>|
            texts_of(names@).contains(t) <==> (before@.contains_key(t) || after@.contains_key(t)),
{
    let mut names: Vec<String> = Vec::new();
    let n = before.len();
    let mut i: usize = 0;
    while i < n
        invariant
            n == before.pairs().len(),
            before.wf(),
            0 <= i <= n,
            ascending(texts_of(names@)),
            forall|t: Seq<char>|
                texts_of(names@).contains(t) <==> exists|j: int|
                    0 <= j < i && (#[trigger] before.pairs()[j]).0 == t,
        decreases n - i,
    {
        let ghost had = texts_of(names@);
        insert_ascending(&mut names, before.name_at(i).clone());
        proof {
            let key = before.pairs()[i as int].0;
            assert forall|t: Seq<char>| texts_of(names@).contains(t) <==> exists|j: int|
                0 <= j < i + 1 && (#[trigger] before.pairs()[j]).0 == t by {
                if had.contains(t) {
                    let j = choose|j: int| 0 <= j < i && (#[trigger] before.pairs()[j]).0 == t;
                    assert(0 <= j < i + 1 && before.pairs()[j].0 == t);
                }
                if t == key {
                    assert(before.pairs()[i as int].0 == t);
                }
                if exists|j: int| 0 <= j < i + 1 && (#[trigger] before.pairs()[j]).0 == t {
                    let j = choose|j: int| 0 <= j < i + 1 && (#[trigger] before.pairs()[j]).0 == t;
                    if j < i {
                        assert(had.contains(t));
                    }
                }
            }
        }
        i += 1;
    }
    let m = after.len();
    let mut k: usize = 0;
    while k < m
        invariant
            m == after.pairs().len(),
            after.wf(),
            before.wf(),
            0 <= k <= m,
            ascending(texts_of(names@)),
            forall|t: Seq<char>|
                texts_of(names@).contains(t) <==> (before@.contains_key(t) || exists|j: int|
                    0 <= j < k && (#[trigger] after.pairs()[j]).0 == t),
        decreases m - k,
    {
        let ghost had = texts_of(names@);
        insert_ascending(&mut names, after.name_at(k).clone());
        proof {
            let key = after.pairs()[k as int].0;
            assert forall|t: Seq<char>| texts_of(names@).contains(t) <==> (before@.contains_key(t)
                || exists|j: int| 0 <= j < k + 1 && (#[trigger] after.pairs()[j]).0 == t) by {
                if had.contains(t) && !before@.contains_key(t) {
                    let j = choose|j: int| 0 <= j < k && (#[trigger] after.pairs()[j]).0 == t;
                    assert(0 <= j < k + 1 && after.pairs()[j].0 == t);
                }
                if t == key {
                    assert(after.pairs()[k as int].0 == t);
                }
                if exists|j: int| 0 <= j < k + 1 && (#[trigger] after.pairs()[j]).0 == t {
                    let j = choose|j: int| 0 <= j < k + 1 && (#[trigger] after.pairs()[j]).0 == t;
                    if j < k {
                        assert(had.contains(t));
                    }
                }
            }
        }
        k += 1;
    }
    names
}

/// How the materials `after` differ from the materials `before`.
pub fn material_changes(before: &Materials, after: &Materials) -> (changes: Vec<MaterialChange>)
    ensures
        lists_changes(changes_of(changes@), before@, after@),
{
    let names = sorted_names(before, after);
    let mut changes: Vec<MaterialChange> = Vec::new();
    let mut i: usize = 0;
    while i < names.len()
        invariant
            0 <= i <= names@.len(),
            ascending(texts_of(names@)),
            ascending(names_of(changes_of(changes@))),
            forall|x: int|
                0 <= x < changes@.len() ==> exists|j: int|
                    0 <= j < i && #[trigger] texts_of(names@)[j] == (#[trigger] changes_of(
                        changes@,
                    )[x]).name(),
            forall|x: int|
                0 <= x < changes@.len() ==> change_of(
                    before@,
                    after@,
                    (#[trigger] changes_of(changes@)[x]).name(),
                ) == Some(changes_of(changes@)[x]),
            forall|j: int|
                0 <= j < i && change_of(before@, after@, #[trigger] texts_of(names@)[j]) is Some
                    ==> names_of(changes_of(changes@)).contains(texts_of(names@)[j]),
        decreases names@.len() - i,
    {
        let name = &names[i];
        let ghost key = texts_of(names@)[i as int];
        assert(key == name@);
        let old_text = before.get(name.as_str());
        let new_text = after.get(name.as_str());
        let change = match (old_text, new_text) {
            (Some(o), Some(n)) => {
                if o.as_str().eq(n.as_str()) {
                    None
                } else {
                    Some(
                        MaterialChange::Changed {
                            name: name.clone(),
                            before: o.clone(),
                            after: n.clone(),
                        },
                    )
                }
            },
            (Some(o), None) => Some(MaterialChange::Removed { name: name.clone(), before: o.clone() }),
            (None, Some(n)) => Some(MaterialChange::Added { name: name.clone(), after: n.clone() }),
            (None, None) => None,
        };
        let ghost had = changes_of(changes@);
        match change {
            Some(c) => {
                assert(Some(c@) == change_of(before@, after@, key));
                changes.push(c);
                proof {
                    let now = changes_of(changes@);
                    assert(now =~= had.push(c@));
                    assert(names_of(now) =~= names_of(had).push(key));
                    assert forall|x: int, y: int| 0 <= x < y < names_of(now).len() implies crate::order::lex_less(
                        #[trigger] names_of(now)[x],
                        #[trigger] names_of(now)[y],
                    ) by {
                        if y == had.len() {
                            let j = choose|j: int|
                                0 <= j < i && #[trigger] texts_of(names@)[j] == (#[trigger] had[x]).name();
                            assert(crate::order::lex_less(texts_of(names@)[j], texts_of(names@)[i as int]));
                        } else {
                            assert(crate::order::lex_less(names_of(had)[x], names_of(had)[y]));
                        }
                    }
                    assert forall|x: int| 0 <= x < changes@.len() implies exists|j: int|
                        0 <= j < i + 1 && #[trigger] texts_of(names@)[j] == (#[trigger] now[x]).name() by {
                        if x < had.len() {
                            let j = choose|j: int|
                                0 <= j < i && #[trigger] texts_of(names@)[j] == (#[trigger] had[x]).name();
                            assert(0 <= j < i + 1 && texts_of(names@)[j] == now[x].name());
                        } else {
                            assert(texts_of(names@)[i as int] == now[x].name());
                        }
                    }
                    assert forall|j: int|
                        0 <= j < i + 1 && change_of(before@, after@, #[trigger] texts_of(names@)[j])
                            is Some implies names_of(now).contains(texts_of(names@)[j]) by {
                        if j < i {
                            let x = choose|x: int|
                                0 <= x < names_of(had).len() && names_of(had)[x] == texts_of(names@)[j];
                            assert(names_of(now)[x] == texts_of(names@)[j]);
                        } else {
                            assert(names_of(now)[had.len() as int] == key);
                        }
                    }
                }
            },
            None => {
                assert(change_of(before@, after@, key) is None);
            },
        }
        i += 1;
    }
    proof {
        let now = changes_of(changes@);
        assert forall|name: Seq<char>| (#[trigger] change_of(before@, after@, name))
            is Some implies names_of(now).contains(name) by {
            assert(before@.contains_key(name) || after@.contains_key(name));
            assert(texts_of(names@).contains(name));
            let j = choose|j: int| 0 <= j < texts_of(names@).len() && texts_of(names@)[j] == name;
            assert(change_of(before@, after@, texts_of(names@)[j]) is Some);
        }
    }
    changes
}

/// What replacing a preset by a candidate would do.
pub enum DiffReport {
    /// The operation has no preset yet: the candidate would be its first.
    NewPreset,
    /// The candidate says what the existing preset says.
    NoChanges,
    /// The candidate differs: in its duration, given as the old and the new
    /// one, in its materials, or in both.
    Changes { duration: Option<(i64, i64)>, materials: Vec<MaterialChange> },
}

/// A `DiffReport` with its texts as sequences of characters.
pub enum ReportView {
    NewPreset,
    NoChanges,
    Changes { duration: Option<(i64, i64)>, materials: Seq<ChangeView> },
}

/// The old and the new duration, where they differ.
pub open spec fn duration_change(before: i64, after: i64) -> Option<(i64, i64)> {
    if before == after {
        None
    } else {
        Some((before, after))
    }
}

/// A change of duration as text: the old and the new duration in minutes.
pub open spec fn duration_text(before: i64, after: i64) -> Seq<char> {
    int_text(before as int) + "m -> "@ + int_text(after as int) + "m"@
}

/// The line of text that tells a change of duration.
pub open spec fn duration_line(before: i64, after: i64) -> Seq<char> {
    "Duration: "@ + duration_text(before, after)
}

/// A change of duration as text: the old and the new duration in minutes,
/// as in `60m -> 90m`.
pub fn describe_duration(before: i64, after: i64) -> (text: String)
    ensures
        text@ == duration_text(before, after),
{
    let mut text = i64_text(before);
    text.append("m -> ");
    text.append(i64_text(after).as_str());
    text.append("m");
    text
}

/// The lines of the changes of `changes`, in order.
pub open spec fn change_lines(changes: Seq<ChangeView>) -> Seq<Seq<char>> {
    Seq::new(changes.len(), |i: int| changes[i].line())
}

/// Whether `report` is the report on replacing `existing` by `candidate`.
pub open spec fn reports(report: ReportView, existing: Option<PresetView>, candidate: PresetView)
    -> bool {
    match existing {
        None => report is NewPreset,
        Some(old) => {
            if old.duration_minutes == candidate.duration_minutes && old.materials
                == candidate.materials {
                report is NoChanges
            } else {
                &&& report matches ReportView::Changes { duration, materials }
                &&& duration == duration_change(old.duration_minutes, candidate.duration_minutes)
                &&& lists_changes(materials, old.materials, candidate.materials)
            }
        },
    }
}

impl ReportView {
    /// The report as lines of text.
    pub open spec fn lines(self) -> Seq<Seq<char>> {
        match self {
            ReportView::NewPreset => seq!["New Preset will be created."@],
            ReportView::NoChanges => seq!["No changes detected."@],
            ReportView::Changes { duration, materials } => match duration {
                Some((before, after)) => seq![duration_line(before, after)] + change_lines(
                    materials,
                ),
                None => change_lines(materials),
            },
        }
    }
}

impl DiffReport {
    /// The report with its texts as sequences of characters.
    pub open spec fn view(&self) -> ReportView {
        match *self {
            DiffReport::NewPreset => ReportView::NewPreset,
            DiffReport::NoChanges => ReportView::NoChanges,
            DiffReport::Changes { duration, materials } => ReportView::Changes {
                duration,
                materials: changes_of(materials@),
            },
        }
    }

    /// The report as lines of text: a line for the duration, where it
    /// changes, then a line for each material that changes; or the one line
    /// that says that nothing changes, or that the preset is new.
    pub fn lines(&self) -> (lines: Vec<String>)
        ensures
            texts_of(lines@) == self@.lines(),
    {
        let mut lines: Vec<String> = Vec::new();
        match self {
            DiffReport::NewPreset => {
                lines.push(String::from_str("New Preset will be created."));
                assert(texts_of(lines@) =~= self@.lines());
            },
            DiffReport::NoChanges => {
                lines.push(String::from_str("No changes detected."));
                assert(texts_of(lines@) =~= self@.lines());
            },
            DiffReport::Changes { duration, materials } => {
                let ghost head: Seq<Seq<char>> = match *duration {
                    Some((before, after)) => seq![duration_line(before, after)],
                    None => Seq::empty(),
                };
                match duration {
                    Some((before, after)) => {
                        let mut line = String::from_str("Duration: ");
                        line.append(describe_duration(*before, *after).as_str());
                        lines.push(line);
                    },
                    None => {},
                }
                assert(texts_of(lines@) =~= head);
                let mut i: usize = 0;
                while i < materials.len()
                    invariant
                        0 <= i <= materials@.len(),
                        texts_of(lines@) == head + change_lines(changes_of(materials@)).take(
                            i as int,
                        ),
                    decreases materials@.len() - i,
                {
                    let line = materials[i].describe();
                    let ghost had = texts_of(lines@);
                    lines.push(line);
                    assert(texts_of(lines@) =~= had.push(line@));
                    assert(change_lines(changes_of(materials@)).take(i + 1) =~= change_lines(
                        changes_of(materials@),
                    ).take(i as int).push(line@));
                    i += 1;
                }
                assert(change_lines(changes_of(materials@)).take(i as int) =~= change_lines(
                    changes_of(materials@),
                ));
                assert(texts_of(lines@) =~= self@.lines());
            },
        }
        lines
    }
}

/// No material differs exactly when the two sets of materials are the same.
pub proof fn lemma_unchanged_materials(
    before: Map<Seq<char>, Seq<char>>,
    after: Map<Seq<char>, Seq<char>>,
)
    ensures
        (forall|name: Seq<char>| (#[trigger] change_of(before, after, name)) is None) <==> before
            == after,
{
    if forall|name: Seq<char>| (#[trigger] change_of(before, after, name)) is None {
        assert forall|name: Seq<char>| before.contains_key(name) == after.contains_key(name) by {
            assert(change_of(before, after, name) is None);
        }
        assert forall|name: Seq<char>| before.contains_key(name) implies before[name]
            == after[name] by {
            assert(change_of(before, after, name) is None);
        }
        assert(before =~= after);
    }
}

/// A list of changes is empty exactly when the two sets of materials are
/// the same.
pub proof fn lemma_no_changes_listed(
    changes: Seq<ChangeView>,
    before: Map<Seq<char>, Seq<char>>,
    after: Map<Seq<char>, Seq<char>>,
)
    requires
        lists_changes(changes, before, after),
    ensures
        changes.len() == 0 <==> before == after,
{
    lemma_unchanged_materials(before, after);
    if changes.len() == 0 {
        assert forall|name: Seq<char>| (#[trigger] change_of(before, after, name)) is None by {
            if change_of(before, after, name) is Some {
                assert(names_of(changes).contains(name));
            }
        }
    } else {
        assert(change_of(before, after, changes[0].name()) is Some);
    }
}

/// There is one list of changes between two sets of materials, and no
/// other.
pub proof fn lemma_changes_determined(
    a: Seq<ChangeView>,
    b: Seq<ChangeView>,
    before: Map<Seq<char>, Seq<char>>,
    after: Map<Seq<char>, Seq<char>>,
)
    requires
        lists_changes(a, before, after),
        lists_changes(b, before, after),
    ensures
        a == b,
{
    assert forall|t: Seq<char>| names_of(a).contains(t) <==> names_of(b).contains(t) by {
        if names_of(a).contains(t) {
            let i = choose|i: int| 0 <= i < names_of(a).len() && names_of(a)[i] == t;
            assert(change_of(before, after, a[i].name()) == Some(a[i]));
            assert(change_of(before, after, t) is Some);
        }
        if names_of(b).contains(t) {
            let i = choose|i: int| 0 <= i < names_of(b).len() && names_of(b)[i] == t;
            assert(change_of(before, after, b[i].name()) == Some(b[i]));
            assert(change_of(before, after, t) is Some);
        }
    }
    lemma_ascending_determined(names_of(a), names_of(b));
    assert(a.len() == names_of(a).len());
    assert(b.len() == names_of(b).len());
    assert forall|i: int| 0 <= i < a.len() implies a[i] == b[i] by {
        assert(names_of(a)[i] == names_of(b)[i]);
        assert(change_of(before, after, a[i].name()) == Some(a[i]));
        assert(change_of(before, after, b[i].name()) == Some(b[i]));
    }
    assert(a =~= b);
}

/// Each material that either side has is added, removed, changed or
/// unchanged, and exactly one of the four: added where only the candidate
/// has it, removed where only the existing preset has it, changed where both
/// have it with different texts, unchanged where both have it with the same
/// text. A material that neither side has is not reported.
pub proof fn lemma_one_change_per_name(
    before: Map<Seq<char>, Seq<char>>,
    after: Map<Seq<char>, Seq<char>>,
    name: Seq<char>,
)
    ensures
        change_of(before, after, name) is Some ==> change_of(before, after, name).unwrap().name()
            == name,
        change_of(before, after, name) matches Some(ChangeView::Added { after: a, .. })
            <==> !before.contains_key(name) && after.contains_key(name),
        change_of(before, after, name) matches Some(ChangeView::Added { after: a, .. }) ==> a
            == after[name],
        change_of(before, after, name) matches Some(ChangeView::Removed { before: b, .. })
            <==> before.contains_key(name) && !after.contains_key(name),
        change_of(before, after, name) matches Some(ChangeView::Removed { before: b, .. }) ==> b
            == before[name],
        change_of(before, after, name) matches Some(ChangeView::Changed { before: b, after: a, .. })
            <==> before.contains_key(name) && after.contains_key(name) && before[name]
            != after[name],
        change_of(before, after, name) matches Some(ChangeView::Changed { before: b, after: a, .. })
            ==> b == before[name] && a == after[name],
        change_of(before, after, name) is None <==> (before.contains_key(name)
            == after.contains_key(name) && (before.contains_key(name) ==> before[name]
            == after[name])),
{
}

/// Seen from the other side, what was added is removed, what was removed is
/// added, and what was changed is changed the other way round.
pub proof fn lemma_changes_mirror(
    before: Map<Seq<char>, Seq<char>>,
    after: Map<Seq<char>, Seq<char>>,
    name: Seq<char>,
)
    ensures
        change_of(before, after, name) is None <==> change_of(after, before, name) is None,
        change_of(before, after, name) matches Some(ChangeView::Added { after: a, .. })
            <==> change_of(after, before, name) matches Some(ChangeView::Removed { before: b, .. }),
        change_of(before, after, name) matches Some(ChangeView::Removed { before: b, .. })
            <==> change_of(after, before, name) matches Some(ChangeView::Added { after: a, .. }),
        change_of(before, after, name) matches Some(ChangeView::Changed { before: b, after: a, .. })
            <==> change_of(after, before, name) matches Some(
            ChangeView::Changed { before: b, after: a, .. },
        ),
{
}

/// Reports what replacing `existing` by `candidate` would do.
///
/// Without an existing preset the candidate is new. Otherwise the report
/// gives the old and the new duration where they differ, and each material
/// that is added, removed or given another quantity text, in the dictionary
/// order of the materials' names. Nothing changes exactly when the durations
/// are equal and every material has the same text on both sides. Neither
/// preset is changed.
pub fn diff_presets(existing: Option<&TaskPreset>, candidate: &TaskPreset) -> (report: DiffReport)
    ensures
        reports(
            report@,
            match existing {
                Some(old) => Some(old@),
                None => None,
            },
            candidate@,
        ),
        report is NoChanges <==> (existing matches Some(old) && old@ == candidate@),
        report is NewPreset <==> existing is None,
{
    match existing {
        None => DiffReport::NewPreset,
        Some(old) => {
            let materials = material_changes(&old.materials, &candidate.materials);
            proof {
                lemma_no_changes_listed(
                    changes_of(materials@),
                    old.materials@,
                    candidate.materials@,
                );
            }
            let same_duration = old.duration_minutes == candidate.duration_minutes;
            if same_duration && materials.len() == 0 {
                DiffReport::NoChanges
            } else {
                let duration = if same_duration {
                    None
                } else {
                    Some((old.duration_minutes, candidate.duration_minutes))
                };
                DiffReport::Changes { duration, materials }
            }
        },
    }
}

} // verus!
