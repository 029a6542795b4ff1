//! The settings store: values in the shape of JSON, kept by category and
//! name, with the keys changed since the store was last written out.
use vstd::prelude::*;

use crate::text::{
    chars_to_string, copy_range, find_chars, first_match, matches_at, push_str, seq_contains, str_eq, str_to_chars,
};
use crate::traits::ConfigError;
use vstd::utf8::encode_utf8;

verus! {

/// A setting's value, in the shape of JSON.
#[derive(Debug)]
pub enum ConfigValue {
    Null,
    Bool(bool),
    /// A number, as its JSON text.
    Number(String),
    Text(String),
    Array(Vec<ConfigValue>),
    /// Named values, each name once, in the order of their names.
    Object(Vec<(String, ConfigValue)>),
}

/// The longest text a setting may hold, in bytes.
pub const MAX_TEXT_BYTES: usize = 10000;

/// The most items an array setting may hold.
pub const MAX_ARRAY_ITEMS: usize = 1000;

/// The most names an object setting may hold.
pub const MAX_OBJECT_KEYS: usize = 100;

/// Why `v` is refused as a setting: the first fault met, looking at a value
/// before what it holds, and at what it holds in order; `None` when it is
/// accepted.
pub open spec fn value_fault(v: ConfigValue) -> Option<Seq<char>>
    decreases v, 0nat,
{
    match v {
        ConfigValue::Text(s) => if encode_utf8(s@).len() > MAX_TEXT_BYTES {
            Some("String too long (max 10000 chars)"@)
        } else {
            None
        },
        ConfigValue::Array(items) => if items@.len() > MAX_ARRAY_ITEMS {
            Some("Array too large (max 1000 elements)"@)
        } else {
            items_fault(items@)
        },
        ConfigValue::Object(entries) => if entries@.len() > MAX_OBJECT_KEYS {
            Some("Object too large (max 100 keys)"@)
        } else {
            entries_fault(entries@)
        },
        _ => None,
    }
}

/// The first fault among `items`, in order.
pub open spec fn items_fault(items: Seq<ConfigValue>) -> Option<Seq<char>>
    decreases items, 1nat,
{
    if items.len() == 0 {
        None
    } else {
        match value_fault(items[0]) {
            Some(f) => Some(f),
            None => items_fault(items.drop_first()),
        }
    }
}

/// The first fault among the values of `entries`, in order.
pub open spec fn entries_fault(entries: Seq<(String, ConfigValue)>) -> Option<Seq<char>>
    decreases entries, 1nat,
{
    if entries.len() == 0 {
        None
    } else {
        match value_fault(entries[0].1) {
            Some(f) => Some(f),
            None => entries_fault(entries.drop_first()),
        }
    }
}

/// The category and the name a key denotes: the text before and after its
/// first dot, or the category `app` for a key without a dot.
pub open spec fn key_parts(key: Seq<char>) -> (Seq<char>, Seq<char>) {
    match first_match(key, seq!['.']) {
        Some(i) => (key.take(i), key.skip(i + 1)),
        None => ("app"@, key),
    }
}

/// Splits a key into its category and name (see `key_parts`).
pub fn parse_config_key(key: &str) -> (r: (String, String))
    ensures
        (r.0@, r.1@) == key_parts(key@),
{
    let chars = str_to_chars(key);
    let dot: Vec<char> = vec!['.'];
    assert(dot@ =~= seq!['.']);
    match find_chars(&chars, &dot) {
        Some(i) => {
            assert(matches_at(chars@, dot@, i as int));
            let n = chars.len();
            let category = copy_range(&chars, 0, i);
            let name = copy_range(&chars, i + 1, n);
            assert(category@ =~= key@.take(i as int));
            assert(name@ =~= key@.skip(i + 1));
            (chars_to_string(&category), chars_to_string(&name))
        },
        None => {
            proof {
                reveal_strlit("app");
            }
            (String::from_str("app"), String::from_str(key))
        },
    }
}

/// The category and name under which an entry is kept.
pub open spec fn slot(e: (String, String, ConfigValue)) -> (Seq<char>, Seq<char>) {
    (e.0@, e.1@)
}

/// The settings held by a list of entries, a later entry overriding an
/// earlier one under the same category and name.
pub open spec fn value_map(es: Seq<(String, String, ConfigValue)>) -> Map<(Seq<char>, Seq<char>), ConfigValue>
    decreases es.len(),
{
    if es.len() == 0 {
        Map::empty()
    } else {
        value_map(es.drop_last()).insert(slot(es.last()), es.last().2)
    }
}

/// No category and name is kept twice.
pub open spec fn unique_slots(es: Seq<(String, String, ConfigValue)>) -> bool {
    forall|i: int, j: int| 0 <= i < j < es.len() ==> slot(#[trigger] es[i]) != slot(#[trigger] es[j])
}

/// No text occurs twice.
pub open spec fn unique_texts(v: Seq<String>) -> bool {
    forall|i: int, j: int| 0 <= i < j < v.len() ==> (#[trigger] v[i])@ != (#[trigger] v[j])@
}

/// The texts of a list, as a set.
pub open spec fn text_set(v: Seq<String>) -> Set<Seq<char>> {
    Set::new(|t: Seq<char>| exists|i: int| 0 <= i < v.len() && #[trigger] v[i]@ == t)
}

proof fn lemma_unique_slots_drop_last(es: Seq<(String, String, ConfigValue)>)
    requires
        unique_slots(es),
        es.len() > 0,
    ensures
        unique_slots(es.drop_last()),
{
    let rest = es.drop_last();
    assert forall|a: int, b: int| 0 <= a < b < rest.len() implies slot(#[trigger] rest[a]) != slot(
    #[trigger] rest[b]) by {
        assert(rest[a] == es[a] && rest[b] == es[b]);
    }
}

proof fn lemma_value_map_domain(es: Seq<(String, String, ConfigValue)>, k: (Seq<char>, Seq<char>))
    ensures
        value_map(es).contains_key(k) <==> exists|i: int| 0 <= i < es.len() && slot(#[trigger] es[i]) == k,
    decreases es.len(),
{
    if es.len() > 0 {
        let rest = es.drop_last();
        lemma_value_map_domain(rest, k);
        if exists|i: int| 0 <= i < es.len() && slot(#[trigger] es[i]) == k {
            let i = choose|i: int| 0 <= i < es.len() && slot(#[trigger] es[i]) == k;
            if i < es.len() - 1 {
                assert(rest[i] == es[i]);
            }
        }
        if exists|i: int| 0 <= i < rest.len() && slot(#[trigger] rest[i]) == k {
            let i = choose|i: int| 0 <= i < rest.len() && slot(#[trigger] rest[i]) == k;
            assert(es[i] == rest[i]);
        }
    }
}

proof fn lemma_value_map_at(es: Seq<(String, String, ConfigValue)>, i: int)
    requires
        unique_slots(es),
        0 <= i < es.len(),
    ensures
        value_map(es).contains_key(slot(es[i])),
        value_map(es)[slot(es[i])] == es[i].2,
    decreases es.len(),
{
    if i < es.len() - 1 {
        let rest = es.drop_last();
        lemma_unique_slots_drop_last(es);
        assert(rest[i] == es[i]);
        lemma_value_map_at(rest, i);
        assert(slot(es[i]) != slot(es.last()));
    }
}

proof fn lemma_value_map_update(es: Seq<(String, String, ConfigValue)>, i: int, e: (String, String, ConfigValue))
    requires
        unique_slots(es),
        0 <= i < es.len(),
        slot(e) == slot(es[i]),
    ensures
        value_map(es.update(i, e)) == value_map(es).insert(slot(e), e.2),
        unique_slots(es.update(i, e)),
    decreases es.len(),
{
    let u = es.update(i, e);
    assert(unique_slots(u)) by {
        assert forall|a: int, b: int| 0 <= a < b < u.len() implies slot(#[trigger] u[a]) != slot(
        #[trigger] u[b]) by {
            assert(slot(es[a]) != slot(es[b]));
        }
    }
    let rest = es.drop_last();
    lemma_unique_slots_drop_last(es);
    if i == es.len() - 1 {
        assert(u.drop_last() =~= rest);
        assert(value_map(u) =~= value_map(es).insert(slot(e), e.2));
    } else {
        assert(u.drop_last() =~= rest.update(i, e));
        lemma_value_map_update(rest, i, e);
        assert(slot(es.last()) != slot(e));
        assert(value_map(u) =~= value_map(es).insert(slot(e), e.2));
    }
}

proof fn lemma_value_map_remove(es: Seq<(String, String, ConfigValue)>, i: int)
    requires
        unique_slots(es),
        0 <= i < es.len(),
    ensures
        value_map(es.remove(i)) == value_map(es).remove(slot(es[i])),
        unique_slots(es.remove(i)),
    decreases es.len(),
{
    let u = es.remove(i);
    assert(unique_slots(u)) by {
        assert forall|a: int, b: int| 0 <= a < b < u.len() implies slot(#[trigger] u[a]) != slot(
        #[trigger] u[b]) by {
            let a0 = if a < i { a } else { a + 1 };
            let b0 = if b < i { b } else { b + 1 };
            assert(u[a] == es[a0] && u[b] == es[b0]);
            assert(slot(es[a0]) != slot(es[b0]));
        }
    }
    let rest = es.drop_last();
    lemma_unique_slots_drop_last(es);
    if i == es.len() - 1 {
        assert(u =~= rest);
        lemma_value_map_domain(rest, slot(es[i]));
        assert forall|j: int| 0 <= j < rest.len() implies slot(#[trigger] rest[j]) != slot(es[i]) by {
            assert(rest[j] == es[j]);
        }
        assert(value_map(u) =~= value_map(es).remove(slot(es[i])));
    } else {
        assert(u.drop_last() =~= rest.remove(i));
        assert(u.last() == es.last());
        assert(rest[i] == es[i]);
        lemma_value_map_remove(rest, i);
        assert(slot(es.last()) != slot(es[i]));
        assert(value_map(u) =~= value_map(es).remove(slot(es[i])));
    }
}

/// Where `t` stands in `v`, if it does.
fn position(v: &Vec<String>, t: &str) -> (r: Option<usize>)
    ensures
        r matches Some(i) ==> i < v@.len() && v@[i as int]@ == t@,
        r is None ==> !text_set(v@).contains(t@),
{
    let mut i: usize = 0;
    while i < v.len()
        invariant
            i <= v@.len(),
            forall|j: int| 0 <= j < i ==> (#[trigger] v@[j])@ != t@,
        decreases v.len() - i,
    {
        if str_eq(v[i].as_str(), t) {
            return Some(i);
        }
        i += 1;
    }
    None
}

/// Adds `t` to `v` unless it is there.
fn add_text(v: &mut Vec<String>, t: &str)
    requires
        unique_texts(old(v)@),
    ensures
        unique_texts(final(v)@),
        text_set(final(v)@) == text_set(old(v)@).insert(t@),
{
    match position(v, t) {
        Some(i) => {
            assert(text_set(v@) =~= text_set(v@).insert(t@));
        },
        None => {
            let ghost before = v@;
            v.push(String::from_str(t));
            proof {
                assert forall|a: int, b: int| 0 <= a < b < v@.len() implies (#[trigger] v@[a])@ != (
                #[trigger] v@[b])@ by {
                    if b < before.len() {
                        assert(before[a]@ != before[b]@);
                    } else {
                        assert(v@[a] == before[a]);
                        assert(!text_set(before).contains(t@));
                    }
                }
                assert forall|x: Seq<char>| text_set(v@).contains(x) <==> text_set(before).insert(t@).contains(x) by {
                    if text_set(v@).contains(x) {
                        let j = choose|j: int| 0 <= j < v@.len() && #[trigger] v@[j]@ == x;
                        if j < before.len() {
                            assert(before[j] == v@[j]);
                        }
                    }
                    if text_set(before).contains(x) {
                        let j = choose|j: int| 0 <= j < before.len() && #[trigger] before[j]@ == x;
                        assert(v@[j] == before[j]);
                    }
                    if x == t@ {
                        assert(v@[before.len() as int]@ == t@);
                    }
                }
                assert(text_set(v@) =~= text_set(before).insert(t@));
            }
        },
    }
}

/// The settings of the application, by category and name, with the keys
/// changed since they were last written out.
pub struct ConfigStore {
    categories: Vec<String>,
    entries: Vec<(String, String, ConfigValue)>,
    dirty_keys: Vec<String>,
}

impl ConfigStore {
    /// The settings held, by category and name.
    pub closed spec fn values(&self) -> Map<(Seq<char>, Seq<char>), ConfigValue> {
        value_map(self.entries@)
    }

    /// The categories known (a category may hold no setting).
    pub closed spec fn categories(&self) -> Set<Seq<char>> {
        text_set(self.categories@)
    }

    /// The keys changed since the settings were last written out.
    pub closed spec fn dirty(&self) -> Set<Seq<char>> {
        text_set(self.dirty_keys@)
    }

    /// The category and name of each setting, in the order they are kept.
    pub closed spec fn slots(&self) -> Seq<(Seq<char>, Seq<char>)> {
        self.entries@.map_values(|e: (String, String, ConfigValue)| slot(e))
    }

    pub closed spec fn wf(&self) -> bool {
        &&& unique_slots(self.entries@)
        &&& unique_texts(self.categories@)
        &&& unique_texts(self.dirty_keys@)
        &&& forall|i: int| 0 <= i < self.entries@.len() ==> text_set(self.categories@).contains(
            (#[trigger] self.entries@[i]).0@,
        )
    }

    /// An empty store.
    pub fn new() -> (s: Self)
        ensures
            s.wf(),
            s.values() == Map::<(Seq<char>, Seq<char>), ConfigValue>::empty(),
            s.categories() == Set::<Seq<char>>::empty(),
            s.dirty() == Set::<Seq<char>>::empty(),
            s.slots() == Seq::<(Seq<char>, Seq<char>)>::empty(),
    {
        let s = ConfigStore { categories: Vec::new(), entries: Vec::new(), dirty_keys: Vec::new() };
        assert(s.values() =~= Map::<(Seq<char>, Seq<char>), ConfigValue>::empty());
        assert(s.categories() =~= Set::<Seq<char>>::empty());
        assert(s.dirty() =~= Set::<Seq<char>>::empty());
        assert(s.slots() =~= Seq::<(Seq<char>, Seq<char>)>::empty());
        s
    }

    /// Where the setting `name` of `category` is kept, if it is.
    fn find(&self, category: &str, name: &str) -> (r: Option<usize>)
        requires
            self.wf(),
        ensures
            r matches Some(i) ==> i < self.entries@.len() && slot(self.entries@[i as int]) == (
            category@, name@),
            r is None ==> !self.values().contains_key((category@, name@)),
    {
        let mut i: usize = 0;
        while i < self.entries.len()
            invariant
                i <= self.entries@.len(),
                forall|j: int| 0 <= j < i ==> slot(#[trigger] self.entries@[j]) != (category@, name@),
            decreases self.entries.len() - i,
        {
            if str_eq(self.entries[i].0.as_str(), category) && str_eq(self.entries[i].1.as_str(), name) {
                return Some(i);
            }
            i += 1;
        }
        proof {
            lemma_value_map_domain(self.entries@, (category@, name@));
        }
        None
    }

    /// The setting `key` denotes, if it is held.
    pub fn get_config_json(&self, key: &str) -> (r: Option<&ConfigValue>)
        requires
            self.wf(),
        ensures
            r == (if self.values().contains_key(key_parts(key@)) {
                Some(&self.values()[key_parts(key@)])
            } else {
                None
            }),
    {
        let (category, name) = parse_config_key(key);
        match self.find(category.as_str(), name.as_str()) {
            Some(i) => {
                proof {
                    lemma_value_map_at(self.entries@, i as int);
                }
                Some(&self.entries[i].2)
            },
            None => None,
        }
    }

    /// Keeps `value` as the setting `name` of `category` (creating the
    /// category if need be).
    fn put(&mut self, category: &str, name: String, value: ConfigValue)
        requires
            old(self).wf(),
        ensures
            final(self).wf(),
            final(self).values() == old(self).values().insert((category@, name@), value),
            final(self).categories() == old(self).categories().insert(category@),
            final(self).dirty() == old(self).dirty(),
    {
        let ghost k = (category@, name@);
        let ghost before = self.entries@;
        let ghost cats = self.categories@;
        match self.find(category, name.as_str()) {
            Some(i) => {
                let entry = (String::from_str(category), name, value);
                proof {
                    lemma_value_map_update(before, i as int, entry);
                }
                self.entries.set(i, entry);
                proof {
                    assert forall|j: int| 0 <= j < self.entries@.len() implies text_set(cats).contains(
                        (#[trigger] self.entries@[j]).0@,
                    ) by {
                        if j != i {
                            assert(self.entries@[j] == before[j]);
                        } else {
                            assert(before[j].0@ == category@);
                        }
                    }
                }
            },
            None => {
                let entry = (String::from_str(category), name, value);
                self.entries.push(entry);
                proof {
                    lemma_value_map_domain(before, k);
                    assert(self.entries@.drop_last() =~= before);
                    assert forall|a: int, b: int| 0 <= a < b < self.entries@.len() implies slot(
                    #[trigger] self.entries@[a]) != slot(#[trigger] self.entries@[b]) by {
                        assert(self.entries@[a] == before[a]);
                        if b < before.len() {
                            assert(self.entries@[b] == before[b]);
                            assert(slot(before[a]) != slot(before[b]));
                        }
                    }
                }
            },
        }
        let ghost mid = self.entries@;
        add_text(&mut self.categories, category);
        proof {
            assert forall|j: int| 0 <= j < mid.len() implies text_set(self.categories@).contains(
                (#[trigger] mid[j]).0@,
            ) by {
                if mid[j].0@ != category@ {
                    assert(text_set(cats).contains(mid[j].0@)) by {
                        if exists|x: int| 0 <= x < before.len() && before[x] == mid[j] {
                            let x = choose|x: int| 0 <= x < before.len() && before[x] == mid[j];
                            assert(text_set(cats).contains((before[x]).0@));
                        }
                    }
                }
            }
        }
    }

    /// Keeps `value` as the setting `key` denotes (creating its category if
    /// need be) and marks `key` as changed.
    pub fn set_config_json(&mut self, key: &str, value: ConfigValue)
        requires
            old(self).wf(),
        ensures
            final(self).wf(),
            final(self).values() == old(self).values().insert(key_parts(key@), value),
            final(self).categories() == old(self).categories().insert(key_parts(key@).0),
            final(self).dirty() == old(self).dirty().insert(key@),
    {
        let (category, name) = parse_config_key(key);
        self.put(category.as_str(), name, value);
        add_text(&mut self.dirty_keys, key);
    }

    /// Takes in the settings of `category` as read from where they are
    /// kept: they replace what the store held of that category, and no key
    /// is marked as changed.
    pub fn load_category(&mut self, category: &str, settings: Vec<(String, ConfigValue)>)
        requires
            old(self).wf(),
        ensures
            final(self).wf(),
            final(self).values() == loaded(old(self).values(), category@, settings@),
            final(self).categories() == old(self).categories().insert(category@),
            final(self).dirty() == old(self).dirty(),
    {
        let ghost m0 = self.values();
        let mut rest: Vec<(String, String, ConfigValue)> = Vec::new();
        std::mem::swap(&mut rest, &mut self.entries);
        let ghost old_es = rest@;
        let ghost i: int = 0;
        assert(old_es.take(0) =~= Seq::<(String, String, ConfigValue)>::empty());
        assert(without_category(value_map(old_es.take(0)), category@) =~= value_map(self.entries@));
        while rest.len() > 0
            invariant
                unique_slots(old_es),
                value_map(old_es) == m0,
                0 <= i <= old_es.len(),
                rest@ == old_es.skip(i),
                unique_slots(self.entries@),
                value_map(self.entries@) == without_category(value_map(old_es.take(i)), category@),
                forall|a: int| 0 <= a < self.entries@.len() ==> exists|x: int|
                    0 <= x < i && #[trigger] self.entries@[a] == old_es[x],
                forall|a: int| 0 <= a < old_es.len() ==> self.categories().contains((#[trigger] old_es[a]).0@),
                unique_texts(self.categories@),
                unique_texts(self.dirty_keys@),
                self.categories() == old(self).categories(),
                self.dirty() == old(self).dirty(),
            decreases rest.len(),
        {
            let e = rest.remove(0);
            proof {
                assert(e == old_es[i]);
                assert(old_es.take(i + 1).drop_last() =~= old_es.take(i));
                assert(rest@ =~= old_es.skip(i + 1));
            }
            let ghost kept = self.entries@;
            if !str_eq(e.0.as_str(), category) {
                self.entries.push(e);
                proof {
                    assert(self.entries@.drop_last() =~= kept);
                    assert forall|a: int, b: int| 0 <= a < b < self.entries@.len() implies slot(
                    #[trigger] self.entries@[a]) != slot(#[trigger] self.entries@[b]) by {
                        assert(self.entries@[a] == kept[a]);
                        let x = choose|x: int| 0 <= x < i && #[trigger] kept[a] == old_es[x];
                        if b < kept.len() {
                            assert(self.entries@[b] == kept[b]);
                        } else {
                            assert(slot(old_es[x]) != slot(old_es[i]));
                        }
                    }
                    assert forall|a: int| 0 <= a < self.entries@.len() implies exists|x: int|
                        0 <= x < i + 1 && #[trigger] self.entries@[a] == old_es[x] by {
                        if a < kept.len() {
                            assert(self.entries@[a] == kept[a]);
                            let x = choose|x: int| 0 <= x < i && #[trigger] kept[a] == old_es[x];
                        } else {
                            assert(self.entries@[a] == old_es[i]);
                        }
                    }
                    lemma_without_category_insert(value_map(old_es.take(i)), category@, slot(e), e.2);
                }
            } else {
                proof {
                    lemma_without_category_insert(value_map(old_es.take(i)), category@, slot(e), e.2);
                }
            }
            proof {
                i = i + 1;
            }
        }
        proof {
            assert(old_es.take(old_es.len() as int) =~= old_es);
            assert forall|a: int| 0 <= a < self.entries@.len() implies self.categories().contains(
                (#[trigger] self.entries@[a]).0@,
            ) by {
                let x = choose|x: int| 0 <= x < i && #[trigger] self.entries@[a] == old_es[x];
            }
        }
        let mut settings = settings;
        let ghost all = settings@;
        let ghost j: int = 0;
        assert(all.take(0) =~= Seq::<(String, ConfigValue)>::empty());
        while settings.len() > 0
            invariant
                self.wf(),
                0 <= j <= all.len(),
                settings@ == all.skip(j),
                self.values() == loaded(m0, category@, all.take(j)),
                self.categories() == old(self).categories() || self.categories() == old(self).categories().insert(category@),
                self.dirty() == old(self).dirty(),
            decreases settings.len(),
        {
            let (name, value) = settings.remove(0);
            proof {
                assert((name, value) == all[j]);
                assert(all.take(j + 1).drop_last() =~= all.take(j));
                assert(settings@ =~= all.skip(j + 1));
            }
            self.put(category, name, value);
            proof {
                j = j + 1;
            }
        }
        proof {
            assert(all.take(all.len() as int) =~= all);
        }
        add_text(&mut self.categories, category);
    }

    /// Drops the setting `key` denotes (its category stays) and marks `key`
    /// as changed.
    pub fn remove_config(&mut self, key: &str)
        requires
            old(self).wf(),
        ensures
            final(self).wf(),
            final(self).values() == old(self).values().remove(key_parts(key@)),
            final(self).categories() == old(self).categories(),
            final(self).dirty() == old(self).dirty().insert(key@),
    {
        let (category, name) = parse_config_key(key);
        let ghost before = self.entries@;
        match self.find(category.as_str(), name.as_str()) {
            Some(i) => {
                proof {
                    lemma_value_map_remove(before, i as int);
                }
                let _removed = self.entries.remove(i);
                proof {
                    assert forall|j: int| 0 <= j < self.entries@.len() implies text_set(self.categories@).contains(
                        (#[trigger] self.entries@[j]).0@,
                    ) by {
                        let j0 = if j < i { j } else { j + 1 };
                        assert(self.entries@[j] == before[j0]);
                    }
                }
            },
            None => {
                assert(self.values() =~= self.values().remove((category@, name@)));
            },
        }
        add_text(&mut self.dirty_keys, key);
    }

    /// The categories to write out: those known that a changed key denotes,
    /// each once.
    pub fn categories_to_save(&self) -> (r: Vec<String>)
        requires
            self.wf(),
        ensures
            unique_texts(r@),
            text_set(r@) == categories_to_write(self.categories(), self.dirty()),
    {
        let mut r: Vec<String> = Vec::new();
        let mut i: usize = 0;
        assert(text_set(r@) =~= Set::<Seq<char>>::empty());
        assert(self.dirty_keys@.take(0) =~= Seq::<String>::empty());
        while i < self.dirty_keys.len()
            invariant
                self.wf(),
                i <= self.dirty_keys@.len(),
                unique_texts(r@),
                text_set(r@) == categories_of(self.categories(), self.dirty_keys@.take(i as int)),
            decreases self.dirty_keys.len() - i,
        {
            let (category, _name) = parse_config_key(self.dirty_keys[i].as_str());
            assert(self.dirty_keys@.take(i as int + 1).drop_last() =~= self.dirty_keys@.take(i as int));
            match position(&self.categories, category.as_str()) {
                Some(p) => {
                    add_text(&mut r, category.as_str());
                    assert(self.categories@[p as int]@ == category@);
                },
                None => {},
            }
            i += 1;
        }
        proof {
            assert(self.dirty_keys@.take(self.dirty_keys@.len() as int) =~= self.dirty_keys@);
            lemma_categories_of(self.categories(), self.dirty_keys@);
        }
        r
    }

    /// The settings of `category`, by name, in the order they are kept.
    pub fn category_entries(&self, category: &str) -> (r: Vec<(String, &ConfigValue)>)
        requires
            self.wf(),
        ensures
            forall|a: int, b: int| 0 <= a < b < r@.len() ==> (#[trigger] r@[a]).0@ != (#[trigger] r@[b]).0@,
            forall|j: int| 0 <= j < r@.len() ==> {
                let k = (category@, (#[trigger] r@[j]).0@);
                self.values().contains_key(k) && *r@[j].1 == self.values()[k]
            },
            forall|n: Seq<char>| #[trigger] self.values().contains_key((category@, n)) ==> exists|j: int|
                0 <= j < r@.len() && (#[trigger] r@[j]).0@ == n,
    {
        let mut r: Vec<(String, &ConfigValue)> = Vec::new();
        let mut i: usize = 0;
        while i < self.entries.len()
            invariant
                self.wf(),
                i <= self.entries@.len(),
                forall|j: int| 0 <= j < r@.len() ==> exists|x: int| 0 <= x < i && #[trigger] r@[j].0@ == self.entries@[x].1@
                    && self.entries@[x].0@ == category@ && *r@[j].1 == self.entries@[x].2,
                forall|x: int| 0 <= x < i && (#[trigger] self.entries@[x]).0@ == category@ ==> exists|j: int|
                    0 <= j < r@.len() && (#[trigger] r@[j]).0@ == self.entries@[x].1@,
                forall|a: int, b: int| 0 <= a < b < r@.len() ==> (#[trigger] r@[a]).0@ != (#[trigger] r@[b]).0@,
            decreases self.entries.len() - i,
        {
            if str_eq(self.entries[i].0.as_str(), category) {
                let ghost before = r@;
                r.push((String::from_str(self.entries[i].1.as_str()), &self.entries[i].2));
                proof {
                    assert forall|a: int, b: int| 0 <= a < b < r@.len() implies (#[trigger] r@[a]).0@ != (
                    #[trigger] r@[b]).0@ by {
                        if b == before.len() {
                            assert(r@[a] == before[a]);
                            let x = choose|x: int| 0 <= x < i && #[trigger] before[a].0@ == self.entries@[x].1@
                                && self.entries@[x].0@ == category@ && *before[a].1 == self.entries@[x].2;
                            assert(slot(self.entries@[x]) != slot(self.entries@[i as int]));
                        } else {
                            assert(r@[a] == before[a] && r@[b] == before[b]);
                        }
                    }
                    assert forall|j: int| 0 <= j < r@.len() implies exists|x: int| 0 <= x < i + 1 && #[trigger] r@[j].0@
                        == self.entries@[x].1@ && self.entries@[x].0@ == category@ && *r@[j].1 == self.entries@[x].2 by {
                        if j < before.len() {
                            assert(r@[j] == before[j]);
                        } else {
                            assert(r@[j].0@ == self.entries@[i as int].1@);
                        }
                    }
                    assert forall|x: int| 0 <= x < i + 1 && (#[trigger] self.entries@[x]).0@ == category@ implies exists|j: int|
                        0 <= j < r@.len() && (#[trigger] r@[j]).0@ == self.entries@[x].1@ by {
                        if x < i {
                            let j = choose|j: int| 0 <= j < before.len() && (#[trigger] before[j]).0@ == self.entries@[x].1@;
                            assert(r@[j] == before[j]);
                        } else {
                            assert(r@[before.len() as int].0@ == self.entries@[x].1@);
                        }
                    }
                }
            }
            i += 1;
        }
        proof {
            assert forall|j: int| 0 <= j < r@.len() implies {
                let k = (category@, (#[trigger] r@[j]).0@);
                self.values().contains_key(k) && *r@[j].1 == self.values()[k]
            } by {
                let x = choose|x: int| 0 <= x < self.entries@.len() && #[trigger] r@[j].0@ == self.entries@[x].1@
                    && self.entries@[x].0@ == category@ && *r@[j].1 == self.entries@[x].2;
                lemma_value_map_at(self.entries@, x);
            }
            assert forall|n: Seq<char>| #[trigger] self.values().contains_key((category@, n)) implies exists|j: int|
                0 <= j < r@.len() && (#[trigger] r@[j]).0@ == n by {
                lemma_value_map_domain(self.entries@, (category@, n));
                let x = choose|x: int| 0 <= x < self.entries@.len() && slot(#[trigger] self.entries@[x]) == (category@, n);
                assert(self.entries@[x].0@ == category@);
            }
        }
        r
    }

    /// Every setting under its full key, `category.name`, in the order they
    /// are kept.
    pub fn get_all_configs(&self) -> (r: Vec<(String, &ConfigValue)>)
        requires
            self.wf(),
        ensures
            r@.len() == self.slots().len(),
            forall|j: int| 0 <= j < r@.len() ==> {
                let k = self.slots()[j];
                &&& (#[trigger] r@[j]).0@ == k.0 + "."@ + k.1
                &&& self.values().contains_key(k)
                &&& *r@[j].1 == self.values()[k]
            },
            forall|a: int, b: int| 0 <= a < b < self.slots().len() ==> self.slots()[a] != self.slots()[b],
            forall|k: (Seq<char>, Seq<char>)| #[trigger] self.values().contains_key(k) <==> self.slots().contains(k),
    {
        let mut r: Vec<(String, &ConfigValue)> = Vec::new();
        let mut i: usize = 0;
        while i < self.entries.len()
            invariant
                self.wf(),
                i <= self.entries@.len(),
                r@.len() == i,
                forall|j: int| 0 <= j < i ==> {
                    let e = self.entries@[j];
                    &&& (#[trigger] r@[j]).0@ == e.0@ + "."@ + e.1@
                    &&& *r@[j].1 == e.2
                },
            decreases self.entries.len() - i,
        {
            let mut key = String::from_str(self.entries[i].0.as_str());
            push_str(&mut key, ".");
            push_str(&mut key, self.entries[i].1.as_str());
            r.push((key, &self.entries[i].2));
            i += 1;
        }
        proof {
            assert forall|j: int| 0 <= j < r@.len() implies {
                let k = self.slots()[j];
                &&& (#[trigger] r@[j]).0@ == k.0 + "."@ + k.1
                &&& self.values().contains_key(k)
                &&& *r@[j].1 == self.values()[k]
            } by {
                lemma_value_map_at(self.entries@, j);
            }
            assert forall|k: (Seq<char>, Seq<char>)| #[trigger] self.values().contains_key(k) <==> self.slots().contains(k) by {
                lemma_value_map_domain(self.entries@, k);
                if self.slots().contains(k) {
                    let j = choose|j: int| 0 <= j < self.slots().len() && self.slots()[j] == k;
                    assert(slot(self.entries@[j]) == k);
                }
                if self.values().contains_key(k) {
                    let j = choose|j: int| 0 <= j < self.entries@.len() && slot(#[trigger] self.entries@[j]) == k;
                    assert(self.slots()[j] == k);
                }
            }
            assert forall|a: int, b: int| 0 <= a < b < self.slots().len() implies self.slots()[a] != self.slots()[b] by {
                assert(slot(self.entries@[a]) != slot(self.entries@[b]));
            }
        }
        r
    }

    /// Forgets which keys changed (once the settings are written out).
    pub fn clear_dirty(&mut self)
        requires
            old(self).wf(),
        ensures
            final(self).wf(),
            final(self).values() == old(self).values(),
            final(self).categories() == old(self).categories(),
            final(self).dirty() == Set::<Seq<char>>::empty(),
    {
        self.dirty_keys = Vec::new();
        assert(self.dirty() =~= Set::<Seq<char>>::empty());
    }
}

/// The categories to write out: those of `categories` that a key of
/// `dirty` denotes.
pub open spec fn categories_to_write(categories: Set<Seq<char>>, dirty: Set<Seq<char>>) -> Set<Seq<char>> {
    Set::new(|c: Seq<char>| categories.contains(c) && exists|k: Seq<char>| dirty.contains(k) && #[trigger] key_parts(k).0 == c)
}

/// The categories of `categories` that the keys of `keys` denote.
pub open spec fn categories_of(categories: Set<Seq<char>>, keys: Seq<String>) -> Set<Seq<char>>
    decreases keys.len(),
{
    if keys.len() == 0 {
        Set::empty()
    } else {
        let c = key_parts(keys.last()@).0;
        let rest = categories_of(categories, keys.drop_last());
        if categories.contains(c) {
            rest.insert(c)
        } else {
            rest
        }
    }
}

proof fn lemma_categories_of(categories: Set<Seq<char>>, keys: Seq<String>)
    ensures
        categories_of(categories, keys) == categories_to_write(categories, text_set(keys)),
    decreases keys.len(),
{
    if keys.len() == 0 {
        assert(categories_to_write(categories, text_set(keys)) =~= Set::<Seq<char>>::empty()) by {
            assert forall|c: Seq<char>| !#[trigger] categories_to_write(categories, text_set(keys)).contains(c) by {
                if categories_to_write(categories, text_set(keys)).contains(c) {
                    let k = choose|k: Seq<char>| text_set(keys).contains(k) && #[trigger] key_parts(k).0 == c;
                }
            }
        }
    } else {
        let rest = keys.drop_last();
        lemma_categories_of(categories, rest);
        assert forall|k: Seq<char>| text_set(keys).contains(k) <==> (text_set(rest).contains(k) || k == keys.last()@) by {
            if text_set(keys).contains(k) {
                let j = choose|j: int| 0 <= j < keys.len() && #[trigger] keys[j]@ == k;
                if j < rest.len() {
                    assert(rest[j] == keys[j]);
                }
            }
            if text_set(rest).contains(k) {
                let j = choose|j: int| 0 <= j < rest.len() && #[trigger] rest[j]@ == k;
                assert(keys[j] == rest[j]);
            }
            if k == keys.last()@ {
                assert(keys[keys.len() - 1]@ == k);
            }
        }
        assert forall|c: Seq<char>| categories_of(categories, keys).contains(c) <==> categories_to_write(categories, text_set(keys)).contains(c) by {
            if categories_to_write(categories, text_set(keys)).contains(c) {
                let k = choose|k: Seq<char>| text_set(keys).contains(k) && #[trigger] key_parts(k).0 == c;
                if k != keys.last()@ {
                    assert(categories_to_write(categories, text_set(rest)).contains(c));
                }
            }
            if categories_of(categories, keys).contains(c) && c != key_parts(keys.last()@).0 {
                assert(categories_to_write(categories, text_set(rest)).contains(c));
                let k = choose|k: Seq<char>| text_set(rest).contains(k) && #[trigger] key_parts(k).0 == c;
                assert(text_set(keys).contains(k));
            }
            if c == key_parts(keys.last()@).0 && categories.contains(c) {
                assert(text_set(keys).contains(keys.last()@));
            }
        }
        assert(categories_of(categories, keys) =~= categories_to_write(categories, text_set(keys)));
    }
}

/// The settings of `m` outside the category `c`.
pub open spec fn without_category(m: Map<(Seq<char>, Seq<char>), ConfigValue>, c: Seq<char>) -> Map<(Seq<char>, Seq<char>), ConfigValue> {
    m.restrict(m.dom().filter(|k: (Seq<char>, Seq<char>)| k.0 != c))
}

/// The settings of `m` once the category `c` is replaced by the named
/// values `settings`, a later name overriding an earlier one.
pub open spec fn loaded(
    m: Map<(Seq<char>, Seq<char>), ConfigValue>,
    c: Seq<char>,
    settings: Seq<(String, ConfigValue)>,
) -> Map<(Seq<char>, Seq<char>), ConfigValue>
    decreases settings.len(),
{
    if settings.len() == 0 {
        without_category(m, c)
    } else {
        loaded(m, c, settings.drop_last()).insert((c, settings.last().0@), settings.last().1)
    }
}

proof fn lemma_without_category_insert(
    m: Map<(Seq<char>, Seq<char>), ConfigValue>,
    c: Seq<char>,
    k: (Seq<char>, Seq<char>),
    v: ConfigValue,
)
    ensures
        without_category(m.insert(k, v), c) == if k.0 == c {
            without_category(m, c)
        } else {
            without_category(m, c).insert(k, v)
        },
{
    assert(without_category(m.insert(k, v), c) =~= if k.0 == c {
        without_category(m, c)
    } else {
        without_category(m, c).insert(k, v)
    });
}

/// `r` reports the fault `f`, or success where there is none.
pub open spec fn reports(r: Result<(), ConfigError>, f: Option<Seq<char>>) -> bool {
    match f {
        None => r is Ok,
        Some(m) => r matches Err(ConfigError::Validation(d)) && d@ == m,
    }
}

fn refused(detail: &str) -> (e: ConfigError)
    ensures
        e matches ConfigError::Validation(d) && d@ == detail@,
{
    ConfigError::Validation(String::from_str(detail))
}

/// Checks a value before it is kept as a setting: texts of at most 10000
/// bytes, arrays of at most 1000 items, objects of at most 100 names, and
/// the same of everything they hold. The first fault met is reported.
pub fn validate_config_json(value: &ConfigValue) -> (r: Result<(), ConfigError>)
    ensures
        reports(r, value_fault(*value)),
    decreases value,
{
    match value {
        ConfigValue::Text(s) => {
            let n = s.as_str().as_bytes().len();
            assert(n == encode_utf8(s@).len());
            if n > MAX_TEXT_BYTES {
                Err(refused("String too long (max 10000 chars)"))
            } else {
                Ok(())
            }
        },
        ConfigValue::Array(items) => {
            if items.len() > MAX_ARRAY_ITEMS {
                return Err(refused("Array too large (max 1000 elements)"));
            }
            let mut i: usize = 0;
            assert(items@.skip(0) =~= items@);
            while i < items.len()
                invariant
                    *value == ConfigValue::Array(*items),
                    value_fault(*value) == items_fault(items@),
                    i <= items@.len(),
                    items_fault(items@) == items_fault(items@.skip(i as int)),
                decreases items.len() - i,
            {
                proof {
                    assert(items@.skip(i as int)[0] == items@[i as int]);
                    assert(items@.skip(i as int).drop_first() =~= items@.skip(i as int + 1));
                }
                match validate_config_json(&items[i]) {
                    Err(e) => {
                        return Err(e);
                    },
                    Ok(()) => {},
                }
                i += 1;
            }
            assert(items@.skip(i as int) =~= Seq::<ConfigValue>::empty());
            assert(items_fault(Seq::<ConfigValue>::empty()) is None);
            Ok(())
        },
        ConfigValue::Object(entries) => {
            if entries.len() > MAX_OBJECT_KEYS {
                return Err(refused("Object too large (max 100 keys)"));
            }
            let mut i: usize = 0;
            assert(entries@.skip(0) =~= entries@);
            while i < entries.len()
                invariant
                    *value == ConfigValue::Object(*entries),
                    value_fault(*value) == entries_fault(entries@),
                    i <= entries@.len(),
                    entries_fault(entries@) == entries_fault(entries@.skip(i as int)),
                decreases entries.len() - i,
            {
                proof {
                    assert(entries@.skip(i as int)[0] == entries@[i as int]);
                    assert(entries@.skip(i as int).drop_first() =~= entries@.skip(i as int + 1));
                }
                match validate_config_json(&entries[i].1) {
                    Err(e) => {
                        return Err(e);
                    },
                    Ok(()) => {},
                }
                i += 1;
            }
            assert(entries@.skip(i as int) =~= Seq::<(String, ConfigValue)>::empty());
            assert(entries_fault(Seq::<(String, ConfigValue)>::empty()) is None);
            Ok(())
        },
        _ => Ok(()),
    }
}

/// What is written under a key is what a read under any key denoting the
/// same category and name gives back, and the settings under other keys
/// stay as they were (`before` and `after` are the store around a
/// `set_config_json` of `value` under `key`).
pub proof fn lemma_read_after_write(
    before: ConfigStore,
    after: ConfigStore,
    key: Seq<char>,
    value: ConfigValue,
    other: Seq<char>,
)
    requires
        after.values() == before.values().insert(key_parts(key), value),
    ensures
        key_parts(other) == key_parts(key) ==> after.values().contains_key(key_parts(other))
            && after.values()[key_parts(other)] == value,
        key_parts(other) != key_parts(key) ==> after.values().contains_key(key_parts(other))
            == before.values().contains_key(key_parts(other)),
        key_parts(other) != key_parts(key) && before.values().contains_key(key_parts(other))
            ==> after.values()[key_parts(other)] == before.values()[key_parts(other)],
{
}

/// Once a key is removed, no key denoting the same category and name reads
/// anything, and the settings under other keys stay as they were
/// (`before` and `after` are the store around a `remove_config` of `key`).
pub proof fn lemma_removed_setting_is_gone(before: ConfigStore, after: ConfigStore, key: Seq<char>, other: Seq<char>)
    requires
        after.values() == before.values().remove(key_parts(key)),
    ensures
        key_parts(other) == key_parts(key) ==> !after.values().contains_key(key_parts(other)),
        key_parts(other) != key_parts(key) ==> after.values().contains_key(key_parts(other))
            == before.values().contains_key(key_parts(other)),
        key_parts(other) != key_parts(key) && before.values().contains_key(key_parts(other))
            ==> after.values()[key_parts(other)] == before.values()[key_parts(other)],
{
}

/// A written category is among those to write out until the changed keys
/// are forgotten (`after` is the store after a `set_config_json` or a
/// `remove_config` of `key`, whose category it knows).
pub proof fn lemma_written_category_is_saved(after: ConfigStore, key: Seq<char>)
    requires
        after.dirty().contains(key),
        after.categories().contains(key_parts(key).0),
    ensures
        categories_to_write(after.categories(), after.dirty()).contains(key_parts(key).0),
{
}

/// A key without a dot names a setting of the category `app`, the same one
/// as the key with `app.` before it.
pub proof fn lemma_default_category(name: Seq<char>)
    requires
        !name.contains('.'),
    ensures
        key_parts(name) == ("app"@, name),
        key_parts("app."@ + name) == ("app"@, name),
{
    reveal_strlit("app");
    reveal_strlit("app.");
    let dot = seq!['.'];
    assert(!seq_contains(name, dot)) by {
        if seq_contains(name, dot) {
            let i = choose|i: int| #[trigger] matches_at(name, dot, i);
            assert(name.subrange(i, i + 1)[0] == '.');
            assert(name[i] == '.');
        }
    }
    let k = "app."@ + name;
    assert(matches_at(k, dot, 3)) by {
        assert(k.subrange(3, 4) =~= dot);
    }
    assert forall|j: int| 0 <= j < 3 implies !matches_at(k, dot, j) by {
        assert(k.subrange(j, j + 1)[0] == k[j]);
    }
    assert(seq_contains(k, dot));
    let w = choose|i: int| matches_at(k, dot, i) && forall|j: int| 0 <= j < i ==> !matches_at(k, dot, j);
    assert(w == 3) by {
        if w > 3 {
            assert(!matches_at(k, dot, 3));
        } else if w < 3 {
            assert(!matches_at(k, dot, w));
        }
    }
    assert(k.take(3) =~= "app"@);
    assert(k.skip(4) =~= name);
}

} // verus!
