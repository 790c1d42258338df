//! The handler registry: which handler an identifier names, and which
//! identifier a pair of actor type and message type was registered under.

use vstd::prelude::*;

verus! {

/// The pair of type tags that a handler is bound to.
pub ghost struct HandlerKey {
    pub actor_type: Seq<char>,
    pub message_type: Seq<char>,
}

/// Mathematical value of one registry entry.
pub ghost struct HandlerEntryView {
    pub id: Seq<char>,
    pub key: HandlerKey,
}

/// One registered handler: its identifier and the actor type and message type
/// that it deserializes for and dispatches to.
#[derive(Debug)]
pub struct HandlerEntry {
    pub id: String,
    pub actor_type: String,
    pub message_type: String,
}

impl View for HandlerEntry {
    type V = HandlerEntryView;

    open spec fn view(&self) -> HandlerEntryView {
        HandlerEntryView {
            id: self.id@,
            key: HandlerKey { actor_type: self.actor_type@, message_type: self.message_type@ },
        }
    }
}

impl HandlerEntry {
    pub fn new(id: &str, actor_type: &str, message_type: &str) -> (entry: HandlerEntry)
        ensures
            entry@.id == id@,
            entry@.key.actor_type == actor_type@,
            entry@.key.message_type == message_type@,
    {
        HandlerEntry {
            id: id.to_owned(),
            actor_type: actor_type.to_owned(),
            message_type: message_type.to_owned(),
        }
    }
}

/// No identifier occurs twice.
pub open spec fn distinct_ids(entries: Seq<HandlerEntryView>) -> bool {
    forall|i: int, j: int| 0 <= i < j < entries.len() ==> entries[i].id != entries[j].id
}

/// The type tags of the handler registered under `id`, if any.
pub open spec fn handler_for(entries: Seq<HandlerEntryView>, id: Seq<char>) -> Option<HandlerKey>
    decreases entries.len(),
{
    if entries.len() == 0 {
        None
    } else if entries.last().id == id {
        Some(entries.last().key)
    } else {
        handler_for(entries.drop_last(), id)
    }
}

/// The identifier under which `key` was registered last, if any.
pub open spec fn identifier_for(entries: Seq<HandlerEntryView>, key: HandlerKey) -> Option<
    Seq<char>,
>
    decreases entries.len(),
{
    if entries.len() == 0 {
        None
    } else if entries.last().key == key {
        Some(entries.last().id)
    } else {
        identifier_for(entries.drop_last(), key)
    }
}

/// The entries that are not registered under `id`, in their order.
pub open spec fn without_id(entries: Seq<HandlerEntryView>, id: Seq<char>) -> Seq<
    HandlerEntryView,
>
    decreases entries.len(),
{
    if entries.len() == 0 {
        entries
    } else if entries.last().id == id {
        without_id(entries.drop_last(), id)
    } else {
        without_id(entries.drop_last(), id).push(entries.last())
    }
}

/// The registry after `entry` was registered: an earlier entry under the same
/// identifier is gone, and `entry` is the latest.
pub open spec fn registered(entries: Seq<HandlerEntryView>, entry: HandlerEntryView) -> Seq<
    HandlerEntryView,
> {
    without_id(entries, entry.id).push(entry)
}

/// Whether some entry is registered under `id`.
pub open spec fn has_id(entries: Seq<HandlerEntryView>, id: Seq<char>) -> bool {
    exists|i: int| 0 <= i < entries.len() && entries[i].id == id
}

pub proof fn lemma_handler_for_absent(entries: Seq<HandlerEntryView>, id: Seq<char>)
    ensures
        handler_for(entries, id) is None <==> !has_id(entries, id),
    decreases entries.len(),
{
    if entries.len() > 0 {
        let front = entries.drop_last();
        lemma_handler_for_absent(front, id);
        if entries.last().id == id {
            assert(entries[entries.len() - 1].id == id);
        } else if has_id(entries, id) {
            let i = choose|i: int| 0 <= i < entries.len() && entries[i].id == id;
            assert(front[i].id == id);
        } else if has_id(front, id) {
            let i = choose|i: int| 0 <= i < front.len() && front[i].id == id;
            assert(entries[i].id == id);
        }
    }
}

/// With distinct identifiers, the handler of an identifier is that of the one
/// entry that carries it.
pub proof fn lemma_handler_for_at(entries: Seq<HandlerEntryView>, i: int)
    requires
        distinct_ids(entries),
        0 <= i < entries.len(),
    ensures
        handler_for(entries, entries[i].id) == Some(entries[i].key),
    decreases entries.len(),
{
    if i < entries.len() - 1 {
        let front = entries.drop_last();
        assert(front[i] == entries[i]);
        lemma_handler_for_at(front, i);
    }
}

proof fn lemma_without_absent(entries: Seq<HandlerEntryView>, id: Seq<char>)
    requires
        !has_id(entries, id),
    ensures
        without_id(entries, id) == entries,
    decreases entries.len(),
{
    if entries.len() > 0 {
        let front = entries.drop_last();
        assert(entries[entries.len() - 1].id != id);
        if has_id(front, id) {
            let i = choose|i: int| 0 <= i < front.len() && front[i].id == id;
            assert(entries[i].id == id);
        }
        lemma_without_absent(front, id);
        assert(front.push(entries.last()) =~= entries);
    }
}

proof fn lemma_without_is_remove(entries: Seq<HandlerEntryView>, i: int)
    requires
        distinct_ids(entries),
        0 <= i < entries.len(),
    ensures
        without_id(entries, entries[i].id) == entries.remove(i),
    decreases entries.len(),
{
    let id = entries[i].id;
    let front = entries.drop_last();
    if i == entries.len() - 1 {
        if has_id(front, id) {
            let j = choose|j: int| 0 <= j < front.len() && front[j].id == id;
            assert(entries[j].id == id);
        }
        lemma_without_absent(front, id);
        assert(entries.remove(i) =~= front);
    } else {
        assert(front[i] == entries[i]);
        lemma_without_is_remove(front, i);
        assert(front.remove(i).push(entries.last()) =~= entries.remove(i));
    }
}

/// What `without_id` keeps: every entry under another identifier, and only those.
pub proof fn lemma_without_id(entries: Seq<HandlerEntryView>, id: Seq<char>)
    ensures
        !has_id(without_id(entries, id), id),
        distinct_ids(entries) ==> distinct_ids(without_id(entries, id)),
        forall|other: Seq<char>|
            other != id ==> #[trigger] handler_for(without_id(entries, id), other) == handler_for(
                entries,
                other,
            ),
        forall|k: int|
            0 <= k < without_id(entries, id).len() ==> entries.contains(
                #[trigger] without_id(entries, id)[k],
            ),
    decreases entries.len(),
{
    let kept = without_id(entries, id);
    if entries.len() > 0 {
        let front = entries.drop_last();
        let last = entries.last();
        let kept_front = without_id(front, id);
        lemma_without_id(front, id);
        assert forall|k: int| 0 <= k < kept.len() implies entries.contains(#[trigger] kept[k]) by {
            if last.id != id && k == kept.len() - 1 {
                assert(entries[entries.len() - 1] == kept[k]);
            } else {
                assert(kept[k] == kept_front[k]);
                assert(front.contains(kept_front[k]));
                let j = choose|j: int| 0 <= j < front.len() && front[j] == kept_front[k];
                assert(entries[j] == kept[k]);
            }
        }
        if has_id(kept, id) {
            let k = choose|k: int| 0 <= k < kept.len() && kept[k].id == id;
            if last.id != id && k == kept.len() - 1 {
            } else {
                assert(kept_front[k].id == id);
            }
        }
        if distinct_ids(entries) {
            assert(distinct_ids(front)) by {
                assert forall|a: int, b: int| 0 <= a < b < front.len() implies front[a].id
                    != front[b].id by {
                    assert(entries[a].id != entries[b].id);
                }
            }
            if last.id != id {
                assert forall|a: int, b: int| 0 <= a < b < kept.len() implies kept[a].id
                    != kept[b].id by {
                    if b == kept.len() - 1 {
                        assert(front.contains(kept_front[a]));
                        let j = choose|j: int| 0 <= j < front.len() && front[j] == kept_front[a];
                        assert(entries[j].id != entries[entries.len() - 1].id);
                    } else {
                        assert(kept_front[a].id != kept_front[b].id);
                    }
                }
            }
        }
        assert forall|other: Seq<char>| other != id implies #[trigger] handler_for(kept, other)
            == handler_for(entries, other) by {
            assert(handler_for(kept_front, other) == handler_for(front, other));
            if last.id != id {
                assert(kept == kept_front.push(last));
                assert(kept.last() == last);
                assert(kept.drop_last() =~= kept_front);
            } else {
                assert(kept == kept_front);
            }
        }
    }
}

/// The identifier registered for a key names a handler bound to that key.
pub proof fn lemma_identifier_names_handler(entries: Seq<HandlerEntryView>, key: HandlerKey)
    requires
        distinct_ids(entries),
    ensures
        identifier_for(entries, key) matches Some(id) ==> handler_for(entries, id) == Some(key),
        identifier_for(entries, key) is None <==> forall|i: int|
            0 <= i < entries.len() ==> entries[i].key != key,
    decreases entries.len(),
{
    if entries.len() > 0 {
        let front = entries.drop_last();
        assert(distinct_ids(front)) by {
            assert forall|a: int, b: int| 0 <= a < b < front.len() implies front[a].id
                != front[b].id by {
                assert(entries[a].id != entries[b].id);
            }
        }
        lemma_identifier_names_handler(front, key);
        if entries.last().key != key {
            if identifier_for(front, key) is Some {
                let id = identifier_for(front, key).unwrap();
                lemma_handler_for_absent(front, id);
                let j = choose|j: int| 0 <= j < front.len() && front[j].id == id;
                assert(entries[j].id != entries[entries.len() - 1].id);
                assert(exists|i: int| 0 <= i < entries.len() && entries[i].key == key) by {
                    let k = choose|k: int| 0 <= k < front.len() && front[k].key == key;
                    assert(entries[k].key == key);
                }
            } else {
                assert forall|i: int| 0 <= i < entries.len() implies entries[i].key != key by {
                    if i < front.len() {
                        assert(front[i].key != key);
                    }
                }
            }
        } else {
            assert(entries[entries.len() - 1].key == key);
        }
    }
}

/// Maps handler identifiers to handlers, and pairs of actor type and message
/// type to the identifier they were registered under.
pub struct HandlerRegistry {
    entries: Vec<HandlerEntry>,
}

impl View for HandlerRegistry {
    type V = Seq<HandlerEntryView>;

    closed spec fn view(&self) -> Seq<HandlerEntryView> {
        Seq::new(self.entries.len() as nat, |i: int| self.entries[i]@)
    }
}

impl HandlerRegistry {
    /// Every value that the constructors and methods of this type produce is valid.
    pub open spec fn wf(&self) -> bool {
        distinct_ids(self@)
    }

    pub fn new() -> (registry: HandlerRegistry)
        ensures
            registry.wf(),
            registry@ == Seq::<HandlerEntryView>::empty(),
    {
        let registry = HandlerRegistry { entries: Vec::new() };
        assert(registry@ =~= Seq::<HandlerEntryView>::empty());
        registry
    }

    /// The number of registered identifiers.
    pub fn len(&self) -> (n: usize)
        ensures
            n == self@.len(),
    {
        self.entries.len()
    }

    fn position_of(&self, id: &String) -> (found: Option<usize>)
        ensures
            (match found {
                Some(i) => i < self@.len() && self@[i as int].id == id@,
                None => !has_id(self@, id@),
            }),
    {
        let mut i: usize = 0;
        while i < self.entries.len()
            invariant
                i <= self.entries.len(),
                forall|j: int| 0 <= j < i ==> self@[j].id != id@,
            decreases self.entries.len() - i,
        {
            if self.entries[i].id == *id {
                return Some(i);
            }
            i += 1;
        }
        None
    }

    /// Registers `entry`: its identifier names it from now on, whatever was
    /// registered under that identifier before, and its pair of type tags maps
    /// back to its identifier.
    pub fn register(&mut self, entry: HandlerEntry)
        requires
            old(self).wf(),
        ensures
            final(self).wf(),
            final(self)@ == registered(old(self)@, entry@),
            handler_for(final(self)@, entry@.id) == Some(entry@.key),
            identifier_for(final(self)@, entry@.key) == Some(entry@.id),
            forall|other: Seq<char>|
                other != entry@.id ==> #[trigger] handler_for(final(self)@, other) == handler_for(
                    old(self)@,
                    other,
                ),
    {
        let ghost before = self@;
        let found = self.position_of(&entry.id);
        proof {
            lemma_without_id(before, entry@.id);
        }
        match found {
            Some(i) => {
                self.entries.remove(i);
                proof {
                    lemma_without_is_remove(before, i as int);
                    assert(self@ =~= before.remove(i as int));
                }
            },
            None => {
                proof {
                    lemma_without_absent(before, entry@.id);
                }
            },
        }
        let ghost kept = self@;
        let ghost added = entry@;
        self.entries.push(entry);
        proof {
            assert(self@ =~= kept.push(added));
            assert(self@.drop_last() =~= kept);
            assert forall|other: Seq<char>| other != added.id implies #[trigger] handler_for(
                self@,
                other,
            ) == handler_for(before, other) by {
                assert(handler_for(kept, other) == handler_for(before, other));
            }
            assert forall|a: int, b: int| 0 <= a < b < self@.len() implies self@[a].id
                != self@[b].id by {
                if b == kept.len() {
                    assert(kept[a].id == added.id ==> has_id(kept, added.id));
                } else {
                    assert(kept[a].id != kept[b].id);
                }
            }
        }
    }

    /// The handler registered under `identifier`, for inbound dispatch.
    pub fn lookup_by_id(&self, identifier: &str) -> (found: Option<&HandlerEntry>)
        requires
            self.wf(),
        ensures
            (match found {
                Some(entry) => entry@.id == identifier@ && handler_for(self@, identifier@) == Some(
                    entry@.key,
                ),
                None => handler_for(self@, identifier@) is None,
            }),
    {
        let key = identifier.to_owned();
        let found = self.position_of(&key);
        proof {
            lemma_handler_for_absent(self@, identifier@);
        }
        match found {
            Some(i) => {
                proof {
                    lemma_handler_for_at(self@, i as int);
                }
                Some(&self.entries[i])
            },
            None => None,
        }
    }

    /// The identifier under which the pair of `actor_type` and `message_type`
    /// was registered, for building outbound envelopes.
    pub fn lookup_by_types(&self, actor_type: &str, message_type: &str) -> (found: Option<String>)
        ensures
            (match found {
                Some(id) => Some(id@),
                None => None,
            }) == identifier_for(
                self@,
                HandlerKey { actor_type: actor_type@, message_type: message_type@ },
            ),
    {
        let wanted_actor = actor_type.to_owned();
        let wanted_message = message_type.to_owned();
        let ghost key = HandlerKey { actor_type: actor_type@, message_type: message_type@ };
        let mut i: usize = self.entries.len();
        proof {
            assert(self@.take(i as int) =~= self@);
        }
        while i > 0
            invariant
                i <= self.entries.len(),
                wanted_actor@ == actor_type@,
                wanted_message@ == message_type@,
                key == (HandlerKey { actor_type: actor_type@, message_type: message_type@ }),
                identifier_for(self@, key) == identifier_for(self@.take(i as int), key),
            decreases i,
        {
            i -= 1;
            let entry = &self.entries[i];
            proof {
                let upto = self@.take(i + 1);
                assert(upto.last() == entry@);
                assert(upto.drop_last() =~= self@.take(i as int));
            }
            if entry.actor_type == wanted_actor && entry.message_type == wanted_message {
                return Some(entry.id.clone());
            }
        }
        proof {
            assert(self@.take(0).len() == 0);
        }
        None
    }
}

} // verus!
