//! Records: how the members of a JSON object, or the items of a JSON array, fill named fields.
//!
//! A member fills the field that has its key as name; an item fills the field at its position.
//! What the value of a field is, and how a JSON value gives it, is for the caller to say: here it
//! is an outcome, a value or the message of a refusal.

use vstd::prelude::*;

use crate::error::DecodeError;
use crate::text::{decimal, u64_to_text};

verus! {

/// What is known of a record's fields but for their values.
pub struct Schema {
    /// The name of the record.
    pub title: &'static str,
    /// Whether a member with no field of its name is refused, rather than passed over.
    pub denies_unknown: bool,
    /// The names of the fields, in order.
    pub names: Vec<&'static str>,
}

/// What a `Schema` stands for.
pub struct SchemaView {
    pub title: Seq<char>,
    pub denies_unknown: bool,
    pub names: Seq<Seq<char>>,
}

impl View for Schema {
    type V = SchemaView;

    open spec fn view(&self) -> SchemaView {
        SchemaView {
            title: self.title@,
            denies_unknown: self.denies_unknown,
            names: self.names.deep_view(),
        }
    }
}

/// A member of an object, next to a record: the position of its field and what its value gives,
/// or its key, where no field has that name.
pub enum Entry<T> {
    Known(usize, Result<T, DecodeError>),
    Unknown(String),
}

/// What an `Entry` stands for.
pub enum EntryView<V> {
    Known(int, Result<V, Seq<char>>),
    Unknown(Seq<char>),
}

/// What an outcome stands for.
pub open spec fn outcome<T: DeepView>(r: Result<T, DecodeError>) -> Result<T::V, Seq<char>> {
    match r {
        Ok(v) => Ok(v.deep_view()),
        Err(e) => Err(e.message@),
    }
}

/// What outcomes stand for.
pub open spec fn outcomes<T: DeepView>(rs: Seq<Result<T, DecodeError>>) -> Seq<
    Result<T::V, Seq<char>>,
> {
    rs.map_values(|r: Result<T, DecodeError>| outcome(r))
}

impl<T: DeepView> DeepView for Entry<T> {
    type V = EntryView<T::V>;

    open spec fn deep_view(&self) -> EntryView<T::V> {
        match self {
            Entry::Known(j, r) => EntryView::Known(*j as int, outcome(*r)),
            Entry::Unknown(key) => EntryView::Unknown(key@),
        }
    }
}

/// `name` between back ticks.
pub open spec fn ticked(name: Seq<char>) -> Seq<char> {
    "`"@ + name + "`"@
}

/// Names between back ticks, one after the other, with a comma and a space between each and the
/// next.
pub open spec fn ticked_list(names: Seq<Seq<char>>) -> Seq<char>
    decreases names.len(),
{
    if names.len() == 0 {
        Seq::empty()
    } else if names.len() == 1 {
        ticked(names[0])
    } else {
        ticked_list(names.drop_last()) + ", "@ + ticked(names.last())
    }
}

/// The names that a refusal offers in place of an unknown one.
pub open spec fn one_of(names: Seq<Seq<char>>) -> Seq<char> {
    if names.len() == 1 {
        ticked(names[0])
    } else if names.len() == 2 {
        ticked(names[0]) + " or "@ + ticked(names[1])
    } else {
        "one of "@ + ticked_list(names)
    }
}

/// The refusal of a member whose key is the name of no field.
pub open spec fn unknown_field_text(key: Seq<char>, names: Seq<Seq<char>>) -> Seq<char> {
    "unknown field "@ + ticked(key) + ", expected "@ + one_of(names)
}

/// The refusal of a second member for one field.
pub open spec fn duplicate_field_text(name: Seq<char>) -> Seq<char> {
    "duplicate field "@ + ticked(name)
}

/// The refusal of an object that lacks a member for a field that must have one.
pub open spec fn missing_field_text(name: Seq<char>) -> Seq<char> {
    "missing field "@ + ticked(name)
}

/// The refusal of an array of the wrong length.
pub open spec fn invalid_length_text(len: nat, expected: Seq<char>) -> Seq<char> {
    "invalid length "@ + decimal(len as int) + ", expected "@ + expected
}

/// How many items an array stands for a record with.
pub open spec fn elements_text(title: Seq<char>, count: nat) -> Seq<char> {
    "struct "@ + title + " with "@ + decimal(count as int) + (if count == 1 {
        " element"@
    } else {
        " elements"@
    })
}

/// Whether one of the entries is for the field at position `j`.
pub open spec fn has_entry<V>(entries: Seq<EntryView<V>>, j: int) -> bool {
    exists|k: int| 0 <= k < entries.len() && entry_is_for(#[trigger] entries[k], j)
}

/// Whether an entry is for the field at position `j`.
pub open spec fn entry_is_for<V>(entry: EntryView<V>, j: int) -> bool {
    entry matches EntryView::Known(k, _) && k == j
}

/// The value that the entries give the field at position `j`, where one does.
pub open spec fn entry_value<V>(entries: Seq<EntryView<V>>, j: int) -> Option<V>
    decreases entries.len(),
{
    if entries.len() == 0 {
        None
    } else {
        match entries.last() {
            EntryView::Known(k, Ok(v)) => if k == j {
                Some(v)
            } else {
                entry_value(entries.drop_last(), j)
            },
            _ => entry_value(entries.drop_last(), j),
        }
    }
}

/// The value of the field at position `j`: what the entries give it, or else its default.
pub open spec fn filled<V>(defaults: Seq<Option<V>>, entries: Seq<EntryView<V>>, j: int) -> Option<
    V,
> {
    match entry_value(entries, j) {
        Some(v) => Some(v),
        None => defaults[j],
    }
}

impl SchemaView {
    /// Why the entry at position `i` is refused, where it is: its key is unknown and the record
    /// denies such, or an entry before it is for the same field, or its value is refused.
    pub open spec fn fault<V>(self, entries: Seq<EntryView<V>>, i: int) -> Option<Seq<char>> {
        match entries[i] {
            EntryView::Unknown(key) => if self.denies_unknown {
                Some(unknown_field_text(key, self.names))
            } else {
                None
            },
            EntryView::Known(j, r) => if has_entry(entries.take(i), j) {
                Some(duplicate_field_text(self.names[j]))
            } else {
                match r {
                    Ok(_) => None,
                    Err(e) => Some(e),
                }
            },
        }
    }

    /// The first refusal of an entry, from position `i` on.
    pub open spec fn first_fault<V>(self, entries: Seq<EntryView<V>>, i: int) -> Option<Seq<char>>
        decreases entries.len() - i,
    {
        if i >= entries.len() {
            None
        } else {
            match self.fault(entries, i) {
                Some(e) => Some(e),
                None => self.first_fault(entries, i + 1),
            }
        }
    }

    /// The first field, from position `j` on, that has neither a value nor a default.
    pub open spec fn first_missing<V>(
        self,
        defaults: Seq<Option<V>>,
        entries: Seq<EntryView<V>>,
        j: int,
    ) -> Option<Seq<char>>
        decreases self.names.len() - j,
    {
        if j >= self.names.len() {
            None
        } else if filled(defaults, entries, j) is None {
            Some(missing_field_text(self.names[j]))
        } else {
            self.first_missing(defaults, entries, j + 1)
        }
    }

    /// The values of a record's fields, from the members of an object: a refusal of an entry comes
    /// first, then that of a missing field. A field with no entry has its default.
    pub open spec fn from_entries<V>(
        self,
        defaults: Seq<Option<V>>,
        entries: Seq<EntryView<V>>,
    ) -> Result<Seq<V>, Seq<char>> {
        match self.first_fault(entries, 0) {
            Some(e) => Err(e),
            None => match self.first_missing(defaults, entries, 0) {
                Some(e) => Err(e),
                None => Ok(
                    Seq::new(self.names.len(), |j: int| filled(defaults, entries, j)->Some_0),
                ),
            },
        }
    }

    /// The value of the field at position `j`, from the items of an array: what its item gives, or
    /// its default, where the array is too short to have one for it.
    pub open spec fn item_value<V>(
        self,
        defaults: Seq<Option<V>>,
        items: Seq<Result<V, Seq<char>>>,
        j: int,
    ) -> Result<V, Seq<char>> {
        if j < items.len() {
            items[j]
        } else {
            match defaults[j] {
                Some(v) => Ok(v),
                None => Err(
                    invalid_length_text(
                        j as nat,
                        elements_text(self.title, self.names.len()),
                    ),
                ),
            }
        }
    }

    /// The first refusal of a field's value, from position `j` on.
    pub open spec fn first_item_fault<V>(
        self,
        defaults: Seq<Option<V>>,
        items: Seq<Result<V, Seq<char>>>,
        j: int,
    ) -> Option<Seq<char>>
        decreases self.names.len() - j,
    {
        if j >= self.names.len() {
            None
        } else {
            match self.item_value(defaults, items, j) {
                Err(e) => Some(e),
                Ok(_) => self.first_item_fault(defaults, items, j + 1),
            }
        }
    }

    /// The values of a record's fields, from an array of `total` items, the first of which, as
    /// many as there are fields, give `items`.
    pub open spec fn from_items<V>(
        self,
        defaults: Seq<Option<V>>,
        items: Seq<Result<V, Seq<char>>>,
        total: nat,
    ) -> Result<Seq<V>, Seq<char>> {
        match self.first_item_fault(defaults, items, 0) {
            Some(e) => Err(e),
            None => if total > self.names.len() {
                Err(invalid_length_text(total, "fewer elements in array"@))
            } else {
                Ok(
                    Seq::new(
                        self.names.len(),
                        |j: int| self.item_value(defaults, items, j)->Ok_0,
                    ),
                )
            },
        }
    }

    /// The position of the first field, from `j` on, with the name `key`.
    pub open spec fn position_from(self, key: Seq<char>, j: int) -> Option<int>
        decreases self.names.len() - j,
    {
        if j >= self.names.len() {
            None
        } else if self.names[j] == key {
            Some(j)
        } else {
            self.position_from(key, j + 1)
        }
    }

    /// The position of the field with the name `key`.
    pub open spec fn position(self, key: Seq<char>) -> Option<int> {
        self.position_from(key, 0)
    }
}

/// `name` between back ticks.
fn tick(name: &str) -> (r: String)
    ensures
        r@ == ticked(name@),
{
    "`".to_string().concat(name).concat("`")
}

/// The names that a refusal offers in place of an unknown one.
fn offer(names: &Vec<&'static str>) -> (r: String)
    ensures
        r@ == one_of(names.deep_view()),
{
    let ghost views = names.deep_view();
    if names.len() == 1 {
        return tick(names[0]);
    }
    if names.len() == 2 {
        return tick(names[0]).concat(" or ").concat(tick(names[1]).as_str());
    }
    let mut text = String::new();
    for i in 0..names.len()
        invariant
            views == names.deep_view(),
            text@ == ticked_list(views.take(i as int)),
    {
        assert(views.take(i + 1).drop_last() == views.take(i as int));
        assert(views.take(i + 1).last() == names@[i as int]@);
        if i > 0 {
            text.append(", ");
        } else {
            assert(text@ + ticked(views[0]) == ticked(views[0]));
        }
        text.append(tick(names[i]).as_str());
    }
    assert(views.take(names@.len() as int) == views);
    "one of ".to_string().concat(text.as_str())
}

/// The refusal of an array of the wrong length.
fn invalid_length(len: usize, expected: &str) -> (r: DecodeError)
    ensures
        r.message@ == invalid_length_text(len as nat, expected@),
{
    DecodeError {
        message: "invalid length ".to_string().concat(u64_to_text(len as u64).as_str()).concat(
            ", expected ",
        ).concat(expected),
    }
}

impl Schema {
    /// How many items an array stands for this record with.
    fn elements(&self) -> (r: String)
        ensures
            r@ == elements_text(self@.title, self@.names.len()),
    {
        let count: usize = self.names.len();
        let text = "struct ".to_string().concat(self.title).concat(" with ").concat(
            u64_to_text(count as u64).as_str(),
        );
        if count == 1 {
            text.concat(" element")
        } else {
            text.concat(" elements")
        }
    }

    /// The position of the field with the name `key`.
    pub fn find(&self, key: &String) -> (r: Option<usize>)
        ensures
            match r {
                Some(j) => j < self.names.len() && self@.position(key@) == Some(j as int),
                None => self@.position(key@) is None,
            },
    {
        let mut j: usize = 0;
        while j < self.names.len()
            invariant
                j <= self.names.len(),
                self@.position(key@) == self@.position_from(key@, j as int),
            decreases self.names.len() - j,
        {
            assert(self@.names[j as int] == self.names@[j as int]@);
            let name = self.names[j].to_string();
            if key.eq(&name) {
                return Some(j);
            }
            j += 1;
        }
        None
    }

    /// The values of the record's fields, from the members of an object.
    pub fn fill_from_entries<T: DeepView>(
        &self,
        defaults: Vec<Option<T>>,
        entries: Vec<Entry<T>>,
    ) -> (r: Result<Vec<T>, DecodeError>)
        requires
            defaults.len() == self.names.len(),
            forall|i: int|
                0 <= i < entries.len() ==> (#[trigger] entries@[i] matches Entry::Known(j, _) ==> j
                    < self.names.len()),
        ensures
            outcome(r) == self@.from_entries(defaults.deep_view(), entries.deep_view()),
    {
        let ghost ds = defaults.deep_view();
        let ghost es = entries.deep_view();
        let mut slots: Vec<Option<T>> = defaults;
        let mut seen: Vec<bool> = Vec::new();
        for k in 0..slots.len()
            invariant
                seen.len() == k,
                forall|j: int| 0 <= j < k ==> !#[trigger] seen@[j],
        {
            seen.push(false);
        }
        let ghost n = self.names@.len();
        assert(es.take(0) == Seq::<EntryView<T::V>>::empty());
        for entry in it: entries
            invariant
                it.seq() == entries@,
                es == entries.deep_view(),
                n == self.names@.len(),
                self@.names.len() == n,
                ds.len() == n,
                slots.len() == n,
                seen.len() == n,
                forall|i: int|
                    0 <= i < entries.len() ==> (#[trigger] entries@[i] matches Entry::Known(j, _)
                        ==> j < n),
                self@.first_fault(es, 0) == self@.first_fault(es, it.index() as int),
                forall|j: int|
                    0 <= j < n ==> #[trigger] seen@[j] == has_entry(es.take(it.index() as int), j),
                forall|j: int|
                    0 <= j < n ==> (#[trigger] slots@[j]).deep_view() == filled(
                        ds,
                        es.take(it.index() as int),
                        j,
                    ),
        {
            let ghost i = it.index() as int;
            let ghost before = es.take(i);
            let ghost after = es.take(i + 1);
            assert(es[i] == entry.deep_view());
            assert(after.drop_last() == before);
            assert(after.last() == es[i]);
            match entry {
                Entry::Unknown(key) => {
                    if self.denies_unknown {
                        return Err(
                            DecodeError {
                                message: "unknown field ".to_string().concat(
                                    tick(key.as_str()).as_str(),
                                ).concat(", expected ").concat(offer(&self.names).as_str()),
                            },
                        );
                    }
                    proof {
                        lemma_entry_added(before, es[i], -1);
                    }
                },
                Entry::Known(j, r) => {
                    if seen[j] {
                        return Err(
                            DecodeError {
                                message: "duplicate field ".to_string().concat(
                                    tick(self.names[j]).as_str(),
                                ),
                            },
                        );
                    }
                    match r {
                        Err(e) => {
                            return Err(e);
                        },
                        Ok(value) => {
                            slots.set(j, Some(value));
                            seen.set(j, true);
                            proof {
                                lemma_entry_added(before, es[i], j as int);
                            }
                        },
                    }
                },
            }
            assert(before.push(es[i]) == after);
        }
        assert(es.take(es.len() as int) == es);
        let mut values: Vec<T> = Vec::new();
        let mut j: usize = 0;
        for slot in it: slots
            invariant
                it.seq() == slots@,
                j == it.index(),
                ds == defaults.deep_view(),
                es == entries.deep_view(),
                n == self.names@.len(),
                self@.names.len() == n,
                slots.len() == n,
                self@.first_fault(es, 0) is None,
                self@.first_missing(ds, es, 0) == self@.first_missing(ds, es, j as int),
                forall|k: int| 0 <= k < n ==> (#[trigger] slots@[k]).deep_view() == filled(ds, es, k),
                values.len() == j,
                forall|k: int|
                    0 <= k < j ==> filled(ds, es, k) == Some((#[trigger] values@[k]).deep_view()),
        {
            assert(slots@[j as int].deep_view() == filled(ds, es, j as int));
            match slot {
                None => {
                    return Err(
                        DecodeError {
                            message: "missing field ".to_string().concat(
                                tick(self.names[j]).as_str(),
                            ),
                        },
                    );
                },
                Some(value) => {
                    values.push(value);
                },
            }
            j += 1;
        }
        assert(values.deep_view() == Seq::new(n, |k: int| filled(ds, es, k)->Some_0));
        Ok(values)
    }

    /// The values of the record's fields, from an array of `total` items, the first of which give
    /// `items`.
    pub fn fill_from_items<T: DeepView>(
        &self,
        defaults: Vec<Option<T>>,
        items: Vec<Result<T, DecodeError>>,
        total: usize,
    ) -> (r: Result<Vec<T>, DecodeError>)
        requires
            defaults.len() == self.names.len(),
            items.len() <= self.names.len(),
        ensures
            outcome(r) == self@.from_items(defaults.deep_view(), outcomes(items@), total as nat),
    {
        let ghost n = self.names@.len();
        let ghost ds = defaults.deep_view();
        let ghost os = outcomes(items@);
        let mut values: Vec<T> = Vec::new();
        for item in it: items
            invariant
                it.seq() == items@,
                os == outcomes(items@),
                ds == defaults.deep_view(),
                n == self.names@.len(),
                self@.names.len() == n,
                items.len() <= n,
                values.len() == it.index(),
                self@.first_item_fault(ds, os, 0) == self@.first_item_fault(
                    ds,
                    os,
                    it.index() as int,
                ),
                forall|k: int|
                    0 <= k < it.index() ==> self@.item_value(ds, os, k) == Ok::<T::V, Seq<char>>(
                        (#[trigger] values@[k]).deep_view(),
                    ),
        {
            assert(os[it.index() as int] == outcome(item));
            match item {
                Err(e) => {
                    return Err(e);
                },
                Ok(value) => {
                    values.push(value);
                },
            }
        }
        let given: usize = values.len();
        let mut j: usize = 0;
        for default in it: defaults
            invariant
                it.seq() == defaults@,
                j == it.index(),
                os == outcomes(items@),
                ds == defaults.deep_view(),
                n == self.names@.len(),
                self@.names.len() == n,
                ds.len() == n,
                given == items.len(),
                given <= n,
                values.len() == if j < given {
                    given
                } else {
                    j
                },
                self@.first_item_fault(ds, os, 0) == self@.first_item_fault(
                    ds,
                    os,
                    values.len() as int,
                ),
                forall|k: int|
                    0 <= k < values.len() ==> self@.item_value(ds, os, k) == Ok::<T::V, Seq<char>>(
                        (#[trigger] values@[k]).deep_view(),
                    ),
        {
            assert(ds[j as int] == default.deep_view());
            if j >= given {
                match default {
                    None => {
                        return Err(invalid_length(j, self.elements().as_str()));
                    },
                    Some(value) => {
                        values.push(value);
                    },
                }
            }
            j += 1;
        }
        if total > self.names.len() {
            return Err(invalid_length(total, "fewer elements in array"));
        }
        assert(values.deep_view() == Seq::new(n, |k: int| self@.item_value(ds, os, k)->Ok_0));
        Ok(values)
    }
}

impl SchemaView {
    /// Where no entry is refused, none is at any position.
    pub proof fn lemma_no_fault<V>(self, entries: Seq<EntryView<V>>, i: int)
        requires
            0 <= i,
            self.first_fault(entries, i) is None,
        ensures
            forall|k: int| i <= k < entries.len() ==> #[trigger] self.fault(entries, k) is None,
        decreases entries.len() - i,
    {
        if i < entries.len() {
            self.lemma_no_fault(entries, i + 1);
        }
    }

    /// Where an entry is refused, the record is.
    pub proof fn lemma_fault<V>(self, entries: Seq<EntryView<V>>, i: int, k: int)
        requires
            0 <= i <= k < entries.len(),
            self.fault(entries, k) is Some,
        ensures
            self.first_fault(entries, i) is Some,
        decreases k - i,
    {
        if i < k {
            self.lemma_fault(entries, i + 1, k);
        }
    }

    /// Where no field is missing, every one has a value.
    pub proof fn lemma_none_missing<V>(
        self,
        defaults: Seq<Option<V>>,
        entries: Seq<EntryView<V>>,
        j: int,
    )
        requires
            0 <= j,
            self.first_missing(defaults, entries, j) is None,
        ensures
            forall|k: int| j <= k < self.names.len() ==> #[trigger] filled(defaults, entries, k) is Some,
        decreases self.names.len() - j,
    {
        if j < self.names.len() {
            self.lemma_none_missing(defaults, entries, j + 1);
        }
    }

    /// Where no field's value is refused, every one has a value.
    pub proof fn lemma_no_item_fault<V>(
        self,
        defaults: Seq<Option<V>>,
        items: Seq<Result<V, Seq<char>>>,
        j: int,
    )
        requires
            0 <= j,
            self.first_item_fault(defaults, items, j) is None,
        ensures
            forall|k: int|
                j <= k < self.names.len() ==> #[trigger] self.item_value(defaults, items, k) is Ok,
        decreases self.names.len() - j,
    {
        if j < self.names.len() {
            self.lemma_no_item_fault(defaults, items, j + 1);
        }
    }
}

/// What one more entry changes: the field that it is for has an entry, and its value.
proof fn lemma_entry_added<V>(entries: Seq<EntryView<V>>, entry: EntryView<V>, j: int)
    requires
        match entry {
            EntryView::Known(k, r) => k == j && r is Ok,
            EntryView::Unknown(_) => j == -1,
        },
    ensures
        forall|k: int|
            #![trigger has_entry(entries.push(entry), k)]
            k >= 0 ==> has_entry(entries.push(entry), k) == (k == j || has_entry(entries, k)),
        forall|k: int|
            #![trigger entry_value(entries.push(entry), k)]
            k >= 0 ==> entry_value(entries.push(entry), k) == if k == j {
                Some(entry->Known_1->Ok_0)
            } else {
                entry_value(entries, k)
            },
{
    let after = entries.push(entry);
    assert(after.drop_last() == entries);
    assert forall|k: int| k >= 0 implies #[trigger] has_entry(after, k) == (k == j || has_entry(
        entries,
        k,
    )) by {
        if has_entry(after, k) && k != j {
            let w = choose|w: int| 0 <= w < after.len() && entry_is_for(#[trigger] after[w], k);
            assert(w < entries.len());
            assert(entry_is_for(entries[w], k));
        }
        if has_entry(entries, k) {
            let w = choose|w: int| 0 <= w < entries.len() && entry_is_for(#[trigger] entries[w], k);
            assert(entry_is_for(after[w], k));
        }
        if k == j {
            assert(entry_is_for(after[entries.len() as int], k));
        }
    }
}

} // verus!
