//! Evaluation contexts: the named attributes of the user being evaluated.
use vstd::prelude::*;

verus! {

/// Evaluation context (user attributes).
///
/// A context is modelled as a map from attribute names to attribute values.
#[derive(Debug)]
pub struct EvaluationContext {
    attributes: Vec<(String, String)>,
}

/// `entries[i]` is the entry of the attribute `name`.
spec fn names_entry(entries: Seq<(String, String)>, i: int, name: Seq<char>) -> bool {
    0 <= i < entries.len() && entries[i].0@ == name
}

/// No attribute is named by two entries.
spec fn distinct_names(entries: Seq<(String, String)>) -> bool {
    forall|i: int, j: int|
        0 <= i < j < entries.len() ==> #[trigger] entries[i].0@ != #[trigger] entries[j].0@
}

/// The map that a list of entries stands for.
spec fn entry_map(entries: Seq<(String, String)>) -> Map<Seq<char>, Seq<char>> {
    Map::new(
        |name: Seq<char>| exists|i: int| names_entry(entries, i, name),
        |name: Seq<char>| entries[choose|i: int| names_entry(entries, i, name)].1@,
    )
}

/// In a list without repeated names, an entry's value is what the map holds.
proof fn lemma_entry_map(entries: Seq<(String, String)>, i: int)
    requires
        distinct_names(entries),
        0 <= i < entries.len(),
    ensures
        entry_map(entries).contains_key(entries[i].0@),
        entry_map(entries)[entries[i].0@] == entries[i].1@,
{
    let name = entries[i].0@;
    assert(names_entry(entries, i, name));
    let j = choose|j: int| names_entry(entries, j, name);
    assert(names_entry(entries, j, name));
    if i < j {
        assert(entries[i].0@ != entries[j].0@);
    } else if j < i {
        assert(entries[j].0@ != entries[i].0@);
    }
}

/// A list without an entry for `name` holds no value for it.
proof fn lemma_absent_name(entries: Seq<(String, String)>, name: Seq<char>)
    requires
        forall|i: int| 0 <= i < entries.len() ==> #[trigger] entries[i].0@ != name,
    ensures
        !entry_map(entries).contains_key(name),
{
    if entry_map(entries).contains_key(name) {
        let i = choose|i: int| names_entry(entries, i, name);
        assert(entries[i].0@ == name);
    }
}

/// Giving the one entry of `name` another value updates the map at `name` alone.
proof fn lemma_replace_value(
    before: Seq<(String, String)>,
    after: Seq<(String, String)>,
    at: int,
)
    requires
        distinct_names(before),
        0 <= at < before.len(),
        after.len() == before.len(),
        after[at].0@ == before[at].0@,
        forall|i: int| 0 <= i < before.len() && i != at ==> after[i] == before[i],
    ensures
        distinct_names(after),
        entry_map(after) == entry_map(before).insert(before[at].0@, after[at].1@),
{
    assert forall|i: int, j: int| 0 <= i < j < after.len() implies #[trigger] after[i].0@
        != #[trigger] after[j].0@ by {
        assert(before[i].0@ != before[j].0@);
    }
    let expected = entry_map(before).insert(before[at].0@, after[at].1@);
    assert forall|name: Seq<char>|
        #![trigger entry_map(after).dom().contains(name)]
        #![trigger expected.dom().contains(name)]
        #![trigger entry_map(after)[name]]
        #![trigger expected[name]]
        entry_map(after).dom().contains(name) == expected.dom().contains(name) && (
        expected.dom().contains(name) ==> entry_map(after)[name] == expected[name]) by {
        if exists|i: int| names_entry(after, i, name) {
            let i = choose|i: int| names_entry(after, i, name);
            lemma_entry_map(after, i);
            lemma_entry_map(before, i);
        } else {
            assert forall|i: int| 0 <= i < before.len() implies #[trigger] before[i].0@ != name by {
                assert(!names_entry(after, i, name));
            }
            lemma_absent_name(before, name);
            lemma_absent_name(after, name);
        }
    }
    assert(entry_map(after) =~= expected);
}

/// Appending an entry with a fresh name inserts it into the map.
proof fn lemma_append_entry(before: Seq<(String, String)>, entry: (String, String))
    requires
        distinct_names(before),
        forall|i: int| 0 <= i < before.len() ==> #[trigger] before[i].0@ != entry.0@,
    ensures
        distinct_names(before.push(entry)),
        entry_map(before.push(entry)) == entry_map(before).insert(entry.0@, entry.1@),
{
    let after = before.push(entry);
    let expected = entry_map(before).insert(entry.0@, entry.1@);
    assert forall|name: Seq<char>|
        #![trigger entry_map(after).dom().contains(name)]
        #![trigger expected.dom().contains(name)]
        #![trigger entry_map(after)[name]]
        #![trigger expected[name]]
        entry_map(after).dom().contains(name) == expected.dom().contains(name) && (
        expected.dom().contains(name) ==> entry_map(after)[name] == expected[name]) by {
        if exists|i: int| names_entry(after, i, name) {
            let i = choose|i: int| names_entry(after, i, name);
            lemma_entry_map(after, i);
            if i < before.len() {
                lemma_entry_map(before, i);
            }
        } else {
            assert(!names_entry(after, before.len() as int, name));
            assert forall|i: int| 0 <= i < before.len() implies #[trigger] before[i].0@ != name by {
                assert(!names_entry(after, i, name));
                assert(after[i] == before[i]);
            }
            lemma_absent_name(before, name);
            lemma_absent_name(after, name);
        }
    }
    assert(entry_map(after) =~= expected);
}

/// The value that `attributes` hold for `name`, if any.
pub open spec fn attribute_of(attributes: Map<Seq<char>, Seq<char>>, name: Seq<char>) -> Option<
    Seq<char>,
> {
    if attributes.contains_key(name) {
        Some(attributes[name])
    } else {
        None
    }
}

impl View for EvaluationContext {
    type V = Map<Seq<char>, Seq<char>>;

    closed spec fn view(&self) -> Map<Seq<char>, Seq<char>> {
        entry_map(self.attributes@)
    }
}

/// Two lists that agree on every name and value stand for the same map.
proof fn lemma_same_entries(left: Seq<(String, String)>, right: Seq<(String, String)>)
    requires
        distinct_names(left),
        left.len() == right.len(),
        forall|i: int|
            0 <= i < left.len() ==> #[trigger] right[i].0@ == left[i].0@ && right[i].1@
                == left[i].1@,
    ensures
        distinct_names(right),
        entry_map(left) == entry_map(right),
{
    assert forall|i: int, j: int| 0 <= i < j < right.len() implies #[trigger] right[i].0@
        != #[trigger] right[j].0@ by {
        assert(left[i].0@ != left[j].0@);
    }
    assert forall|name: Seq<char>|
        #![trigger entry_map(left).dom().contains(name)]
        #![trigger entry_map(right).dom().contains(name)]
        #![trigger entry_map(left)[name]]
        #![trigger entry_map(right)[name]]
        entry_map(left).dom().contains(name) == entry_map(right).dom().contains(name) && (
        entry_map(left).dom().contains(name) ==> entry_map(left)[name] == entry_map(right)[name]) by {
        if exists|i: int| names_entry(left, i, name) {
            let i = choose|i: int| names_entry(left, i, name);
            assert(right[i].0@ == name);
            lemma_entry_map(left, i);
            lemma_entry_map(right, i);
        } else {
            assert forall|i: int| 0 <= i < left.len() implies #[trigger] left[i].0@ != name by {
                assert(!names_entry(left, i, name));
            }
            assert forall|i: int| 0 <= i < right.len() implies #[trigger] right[i].0@ != name by {
                assert(left[i].0@ != name);
            }
            lemma_absent_name(left, name);
            lemma_absent_name(right, name);
        }
    }
    assert(entry_map(left) =~= entry_map(right));
}

impl Clone for EvaluationContext {
    fn clone(&self) -> (copy: Self)
        ensures
            copy@ == self@,
    {
        proof {
            use_type_invariant(self);
        }
        let mut entries: Vec<(String, String)> = Vec::new();
        let mut i: usize = 0;
        while i < self.attributes.len()
            invariant
                i <= self.attributes@.len(),
                entries@.len() == i,
                forall|j: int|
                    0 <= j < i ==> #[trigger] entries@[j].0@ == self.attributes@[j].0@
                        && entries@[j].1@ == self.attributes@[j].1@,
            decreases self.attributes@.len() - i,
        {
            entries.push((self.attributes[i].0.clone(), self.attributes[i].1.clone()));
            i += 1;
        }
        proof {
            lemma_same_entries(self.attributes@, entries@);
        }
        EvaluationContext { attributes: entries }
    }
}

impl Default for EvaluationContext {
    fn default() -> (context: Self)
        ensures
            context@ == Map::<Seq<char>, Seq<char>>::empty(),
    {
        let context = EvaluationContext { attributes: Vec::new() };
        proof {
            assert forall|name: Seq<char>| !context@.contains_key(name) by {
                lemma_absent_name(context.attributes@, name);
            }
            assert(context@ =~= Map::<Seq<char>, Seq<char>>::empty());
        }
        context
    }
}

impl EvaluationContext {
    /// Each attribute has one entry.
    #[verifier::type_invariant]
    spec fn well_formed(self) -> bool {
        distinct_names(self.attributes@)
    }

    /// A context without attributes.
    pub fn new() -> (context: Self)
        ensures
            context@ == Map::<Seq<char>, Seq<char>>::empty(),
    {
        Self::default()
    }

    /// Where the entry of `name` stands, if there is one.
    fn position(&self, name: &str) -> (at: Option<usize>)
        ensures
            match at {
                Some(i) => i < self.attributes@.len() && self.attributes@[i as int].0@ == name@,
                None => forall|i: int|
                    0 <= i < self.attributes@.len() ==> #[trigger] self.attributes@[i].0@ != name@,
            },
    {
        let wanted = name.to_string();
        let mut i: usize = 0;
        while i < self.attributes.len()
            invariant
                i <= self.attributes@.len(),
                wanted@ == name@,
                forall|j: int| 0 <= j < i ==> #[trigger] self.attributes@[j].0@ != name@,
            decreases self.attributes@.len() - i,
        {
            if self.attributes[i].0 == wanted {
                return Some(i);
            }
            i += 1;
        }
        None
    }

    /// Sets the `user_id` attribute.
    pub fn with_user_id(self, user_id: impl Into<String>) -> (context: Self)
        ensures
            exists|id: Seq<char>| #[trigger]
                crate::text::converts_to(user_id, id) && context@ == self@.insert("user_id"@, id),
    {
        let id: String = user_id.into();
        proof {
            assert(crate::text::converts_to(user_id, id@));
        }
        self.with_attribute("user_id", id)
    }

    /// Sets an attribute, replacing the value it had.
    pub fn with_attribute(self, key: impl Into<String>, value: impl Into<String>) -> (context: Self)
        ensures
            exists|name: Seq<char>, text: Seq<char>| #[trigger]
                crate::text::converts_to(key, name) && #[trigger] crate::text::converts_to(
                    value,
                    text,
                ) && context@ == self@.insert(name, text),
    {
        proof {
            use_type_invariant(&self);
        }
        let name: String = key.into();
        let text: String = value.into();
        let at = self.position(name.as_str());
        let EvaluationContext { attributes: mut entries } = self;
        let ghost before = entries@;
        proof {
            assert(crate::text::converts_to(key, name@));
            assert(crate::text::converts_to(value, text@));
        }
        match at {
            Some(i) => {
                entries.set(i, (name, text));
                proof {
                    lemma_replace_value(before, entries@, i as int);
                }
            },
            None => {
                entries.push((name, text));
                proof {
                    lemma_append_entry(before, (name, text));
                }
            },
        }
        EvaluationContext { attributes: entries }
    }

    /// The value of the attribute `key`, if the context has it.
    pub fn get(&self, key: &str) -> (value: Option<&str>)
        ensures
            match value {
                Some(text) => self@.contains_key(key@) && text@ == self@[key@],
                None => !self@.contains_key(key@),
            },
    {
        proof {
            use_type_invariant(self);
        }
        match self.position(key) {
            Some(i) => {
                proof {
                    lemma_entry_map(self.attributes@, i as int);
                }
                Some(self.attributes[i].1.as_str())
            },
            None => {
                proof {
                    lemma_absent_name(self.attributes@, key@);
                }
                None
            },
        }
    }

    /// The `user_id` attribute, if the context has it.
    pub fn user_id(&self) -> (value: Option<&str>)
        ensures
            match value {
                Some(text) => self@.contains_key("user_id"@) && text@ == self@["user_id"@],
                None => !self@.contains_key("user_id"@),
            },
    {
        self.get("user_id")
    }

    /// All `(name, value)` attribute pairs, each attribute once.
    pub fn attributes(&self) -> (pairs: Vec<(&str, &str)>)
        ensures
            forall|i: int|
                0 <= i < pairs@.len() ==> self@.contains_key(#[trigger] pairs@[i].0@)
                    && self@[pairs@[i].0@] == pairs@[i].1@,
            forall|name: Seq<char>| #[trigger]
                self@.contains_key(name) ==> exists|i: int|
                    0 <= i < pairs@.len() && #[trigger] pairs@[i].0@ == name,
            forall|i: int, j: int|
                0 <= i < j < pairs@.len() ==> #[trigger] pairs@[i].0@ != #[trigger] pairs@[j].0@,
    {
        proof {
            use_type_invariant(self);
        }
        let mut pairs: Vec<(&str, &str)> = Vec::new();
        let mut i: usize = 0;
        while i < self.attributes.len()
            invariant
                i <= self.attributes@.len(),
                pairs@.len() == i,
                forall|j: int|
                    0 <= j < i ==> #[trigger] pairs@[j].0@ == self.attributes@[j].0@ && pairs@[j].1@
                        == self.attributes@[j].1@,
            decreases self.attributes@.len() - i,
        {
            pairs.push((self.attributes[i].0.as_str(), self.attributes[i].1.as_str()));
            i += 1;
        }
        proof {
            assert forall|j: int| 0 <= j < pairs@.len() implies self@.contains_key(
                #[trigger] pairs@[j].0@,
            ) && self@[pairs@[j].0@] == pairs@[j].1@ by {
                lemma_entry_map(self.attributes@, j);
            }
            assert forall|name: Seq<char>| #[trigger] self@.contains_key(name) implies exists|j: int|
                0 <= j < pairs@.len() && #[trigger] pairs@[j].0@ == name by {
                let j = choose|j: int| names_entry(self.attributes@, j, name);
                assert(pairs@[j].0@ == name);
            }
            assert forall|j: int, k: int| 0 <= j < k < pairs@.len() implies #[trigger] pairs@[j].0@
                != #[trigger] pairs@[k].0@ by {
                assert(self.attributes@[j].0@ != self.attributes@[k].0@);
            }
        }
        pairs
    }
}

} // verus!
