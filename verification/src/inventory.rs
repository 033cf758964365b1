//! What is in stock, and whether a task's materials can be met from it.

use vstd::prelude::*;
use crate::materials::Materials;
use crate::quantity::{parse_quantity, parsed, Quantity};

verus! {

/// An amount of a material. It is a binary64 floating-point number, carried
/// here by its bit pattern: this library hands amounts on and leaves the
/// arithmetic on them to its caller.
#[derive(Clone, Copy, Debug)]
pub struct Amount {
    /// The bits of the number.
    pub bits: u64,
}

/// A material in stock.
pub struct InventoryItem {
    /// The material's name, by which it is found.
    pub name: String,
    /// How much of it there is.
    pub quantity: Amount,
    /// The unit that `quantity` is counted in.
    pub unit: String,
}

/// An item in stock, with its texts as sequences of characters.
pub struct ItemView {
    pub name: Seq<char>,
    pub quantity: Amount,
    pub unit: Seq<char>,
}

impl InventoryItem {
    /// The item with its texts as sequences of characters.
    pub open spec fn view(&self) -> ItemView {
        ItemView { name: self.name@, quantity: self.quantity, unit: self.unit@ }
    }
}

impl Clone for InventoryItem {
    fn clone(&self) -> (item: Self)
        ensures
            item@ == self@,
    {
        InventoryItem { name: self.name.clone(), quantity: self.quantity, unit: self.unit.clone() }
    }
}

/// The items of `v` with their texts as sequences of characters.
pub open spec fn items_of(v: Seq<InventoryItem>) -> Seq<ItemView> {
    Seq::new(v.len(), |i: int| v[i]@)
}

/// Whether some item of `items` is named `name`.
pub open spec fn has_item(items: Seq<ItemView>, name: Seq<char>) -> bool {
    exists|i: int| 0 <= i < items.len() && (#[trigger] items[i]).name == name
}

/// Whether `i` is the position of the first item of `items` named `name`.
pub open spec fn first_named(items: Seq<ItemView>, name: Seq<char>, i: int) -> bool {
    &&& 0 <= i < items.len()
    &&& items[i].name == name
    &&& forall|j: int| 0 <= j < i ==> (#[trigger] items[j]).name != name
}

/// The first item of `items` named `name`.
pub open spec fn item_named(items: Seq<ItemView>, name: Seq<char>) -> Option<ItemView> {
    if has_item(items, name) {
        Some(items[choose|i: int| first_named(items, name, i)])
    } else {
        None
    }
}

/// Whether every name of `names` is the name of an item of `items`.
pub open spec fn all_present(items: Seq<ItemView>, names: Set<Seq<char>>) -> bool {
    forall|name: Seq<char>| names.contains(name) ==> has_item(items, name)
}

/// The first item with a name is the one that `item_named` gives.
pub proof fn lemma_item_named(items: Seq<ItemView>, name: Seq<char>, i: int)
    requires
        first_named(items, name, i),
    ensures
        item_named(items, name) == Some(items[i]),
{
    let j = choose|j: int| first_named(items, name, j);
    assert(first_named(items, name, j));
    assert(i == j);
}

/// A snapshot of the stock.
pub struct Inventory {
    /// The items, in the order in which they were fetched.
    pub items: Vec<InventoryItem>,
}

impl Inventory {
    /// The items with their texts as sequences of characters.
    pub open spec fn view(&self) -> Seq<ItemView> {
        items_of(self.items@)
    }

    /// An empty stock.
    pub fn new() -> (inventory: Inventory)
        ensures
            inventory@ == Seq::<ItemView>::empty(),
    {
        let inventory = Inventory { items: Vec::new() };
        assert(inventory@ =~= Seq::<ItemView>::empty());
        inventory
    }

    /// The stock made of `items`.
    pub fn from_items(items: Vec<InventoryItem>) -> (inventory: Inventory)
        ensures
            inventory@ == items_of(items@),
    {
        Inventory { items }
    }

    /// The first item named `name`: the names are compared exactly, case
    /// included.
    pub fn find(&self, name: &str) -> (r: Option<&InventoryItem>)
        ensures
            r is Some <==> has_item(self@, name@),
            r matches Some(item) ==> item_named(self@, name@) == Some(item@),
            r is None ==> item_named(self@, name@) is None,
    {
        let mut i: usize = 0;
        while i < self.items.len()
            invariant
                0 <= i <= self.items@.len(),
                forall|j: int| 0 <= j < i ==> (#[trigger] self@[j]).name != name@,
            decreases self.items@.len() - i,
        {
            if self.items[i].name.as_str().eq(name) {
                proof {
                    assert(self@[i as int].name == name@);
                    lemma_item_named(self@, name@, i as int);
                }
                return Some(&self.items[i]);
            }
            i += 1;
        }
        None
    }

    /// Whether an item is named `name`.
    pub fn contains(&self, name: &str) -> (b: bool)
        ensures
            b == has_item(self@, name@),
    {
        self.find(name).is_some()
    }

    /// Whether every material of `materials` is in stock by name. Neither the
    /// quantity texts nor the amounts and units in stock are looked at.
    pub fn all_present(&self, materials: &Materials) -> (b: bool)
        ensures
            b == all_present(self@, materials@.dom()),
    {
        let n = materials.len();
        let mut i: usize = 0;
        while i < n
            invariant
                n == materials.pairs().len(),
                materials.wf(),
                0 <= i <= n,
                forall|j: int| 0 <= j < i ==> has_item(self@, (#[trigger] materials.pairs()[j]).0),
            decreases n - i,
        {
            if !self.contains(materials.name_at(i).as_str()) {
                proof {
                    materials.lemma_wf();
                    crate::keyed::lemma_map_of_pair(materials.pairs(), i as int);
                }
                return false;
            }
            i += 1;
        }
        proof {
            assert forall|name: Seq<char>| materials@.dom().contains(name) implies has_item(
                self@,
                name,
            ) by {
                let j = choose|j: int|
                    0 <= j < materials.pairs().len() && (#[trigger] materials.pairs()[j]).0 == name;
                assert(has_item(self@, materials.pairs()[j].0));
            }
        }
        true
    }
}

/// What is left of a material after a task has taken what it asks for.
pub enum Leftover {
    /// No item in stock has the material's name.
    NotInInventory,
    /// The quantity text does not begin with a number.
    ParseError,
    /// The quantity's unit is not the unit of the item in stock.
    UnitMismatch,
    /// The stock covers the request in its own unit: `available` less the
    /// number written in `required` is what is left.
    Remaining { available: Amount, required: String, unit: String },
}

/// A `Leftover` with its texts as sequences of characters.
pub enum LeftoverView {
    NotInInventory,
    ParseError,
    UnitMismatch,
    Remaining { available: Amount, required: Seq<char>, unit: Seq<char> },
}

impl Leftover {
    /// The value with its texts as sequences of characters.
    pub open spec fn view(&self) -> LeftoverView {
        match *self {
            Leftover::NotInInventory => LeftoverView::NotInInventory,
            Leftover::ParseError => LeftoverView::ParseError,
            Leftover::UnitMismatch => LeftoverView::UnitMismatch,
            Leftover::Remaining { available, required, unit } => LeftoverView::Remaining {
                available,
                required: required@,
                unit: unit@,
            },
        }
    }
}

/// What `evaluate` answers: the material must be in stock by name, its
/// quantity text must read as a quantity, and the unit read must be the unit
/// in stock, letter for letter; then the amount in stock and the number asked
/// for are given together with the unit.
pub open spec fn evaluated(name: Seq<char>, required: Seq<char>, items: Seq<ItemView>)
    -> LeftoverView {
    match item_named(items, name) {
        None => LeftoverView::NotInInventory,
        Some(item) => match parsed(required) {
            None => LeftoverView::ParseError,
            Some((number, unit)) => if unit == item.unit {
                LeftoverView::Remaining { available: item.quantity, required: number, unit: item.unit }
            } else {
                LeftoverView::UnitMismatch
            },
        },
    }
}

/// Checks one material of a task against the stock.
///
/// The answer is a function of the three arguments alone: the same name, the
/// same quantity text and the same stock always give the same answer, and
/// nothing is changed.
pub fn evaluate(name: &str, required: &str, inventory: &Inventory) -> (r: Leftover)
    ensures
        r@ == evaluated(name@, required@, inventory@),
{
    match inventory.find(name) {
        None => Leftover::NotInInventory,
        Some(item) => match parse_quantity(required) {
            None => Leftover::ParseError,
            Some(quantity) => {
                let Quantity { number, unit } = quantity;
                if unit.as_str().eq(item.unit.as_str()) {
                    Leftover::Remaining {
                        available: item.quantity,
                        required: number,
                        unit: item.unit.clone(),
                    }
                } else {
                    Leftover::UnitMismatch
                }
            },
        },
    }
}

/// A material is reported as not in stock exactly when no item has its name,
/// whatever its quantity text says.
pub proof fn lemma_not_in_inventory(name: Seq<char>, required: Seq<char>, items: Seq<ItemView>)
    ensures
        evaluated(name, required, items) is NotInInventory <==> !has_item(items, name),
{
}

/// Every material is in stock by name exactly when none of them is reported
/// as not in stock; the quantity texts have no part in it.
pub proof fn lemma_all_present_by_name(materials: Map<Seq<char>, Seq<char>>, items: Seq<ItemView>)
    ensures
        all_present(items, materials.dom()) <==> forall|name: Seq<char>|
            materials.contains_key(name) ==> !(#[trigger] evaluated(name, materials[name], items)
                is NotInInventory),
{
    let by_leftover = forall|name: Seq<char>|
        materials.contains_key(name) ==> !(#[trigger] evaluated(name, materials[name], items)
            is NotInInventory);
    if all_present(items, materials.dom()) {
        assert forall|name: Seq<char>| materials.contains_key(name) implies !(#[trigger] evaluated(
            name,
            materials[name],
            items,
        ) is NotInInventory) by {
            assert(materials.dom().contains(name));
            lemma_not_in_inventory(name, materials[name], items);
        }
    }
    if by_leftover {
        assert forall|name: Seq<char>| materials.dom().contains(name) implies has_item(
            items,
            name,
        ) by {
            assert(!(evaluated(name, materials[name], items) is NotInInventory));
            lemma_not_in_inventory(name, materials[name], items);
        }
    }
}

/// What the quantity field of a material's row shows: its text and, where
/// the material is in stock, the stock's unit beside it.
pub struct QuantityField {
    pub text: String,
    pub unit: Option<String>,
}

/// What `quantity_field` answers, as sequences of characters: for a
/// material in stock, the number that the quantity text begins with, or
/// nothing where it begins with none, and the stock's unit; for any other
/// material the quantity text as it stands, and no unit.
pub open spec fn field_of(name: Seq<char>, quantity: Seq<char>, items: Seq<ItemView>) -> (
    Seq<char>,
    Option<Seq<char>>,
) {
    match item_named(items, name) {
        Some(item) => match parsed(quantity) {
            Some((number, _)) => (number, Some(item.unit)),
            None => (Seq::empty(), Some(item.unit)),
        },
        None => (quantity, None),
    }
}

/// What the quantity field of the row of the material `name` shows.
pub fn quantity_field(name: &str, quantity: &str, inventory: &Inventory) -> (field: QuantityField)
    ensures
        field.text@ == field_of(name@, quantity@, inventory@).0,
        (match field.unit {
            Some(u) => Some(u@),
            None => None,
        }) == field_of(name@, quantity@, inventory@).1,
{
    match inventory.find(name) {
        Some(item) => {
            let text = match parse_quantity(quantity) {
                Some(q) => q.number,
                None => String::new(),
            };
            QuantityField { text, unit: Some(item.unit.clone()) }
        },
        None => QuantityField { text: String::from_str(quantity), unit: None },
    }
}

} // verus!
