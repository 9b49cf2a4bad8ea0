//! Delivery of input events: which part of the scene has the keyboard, and
//! which handlers get an event of a given type, in the order they were
//! registered.

use vstd::prelude::*;
use crate::text::str_eq;

verus! {

/// The part of the scene an event goes to: the Blitz document, the Wayland
/// clients, or one terminal.
#[derive(Debug, Clone, Copy, PartialEq, Eq, Structural)]
pub enum EventTarget {
    Dom,
    Wayland,
    Terminal(u64),
}

/// An event of a named type for a target, with a payload of the sender's
/// choosing.
#[derive(Debug)]
pub struct Event<D> {
    pub target: EventTarget,
    pub event_type: String,
    pub data: D,
}

/// Whether no two rows of a handler table share an event type.
pub open spec fn types_distinct<H>(s: Seq<(String, Vec<H>)>) -> bool {
    forall|i: int, j: int| 0 <= i < j < s.len() ==> s[i].0@ != s[j].0@
}

/// The handlers that a table holds for `event_type`, in registration order;
/// none if the type has no row.
pub open spec fn handlers_in<H>(s: Seq<(String, Vec<H>)>, event_type: Seq<char>) -> Seq<H> {
    if exists|i: int| 0 <= i < s.len() && #[trigger] s[i].0@ == event_type {
        s[choose|i: int| 0 <= i < s.len() && #[trigger] s[i].0@ == event_type].1@
    } else {
        Seq::empty()
    }
}

/// With distinct types, the row of a type is the one the table shows for it.
pub proof fn lemma_handlers_at<H>(s: Seq<(String, Vec<H>)>, i: int)
    requires
        types_distinct(s),
        0 <= i < s.len(),
    ensures
        handlers_in(s, s[i].0@) == s[i].1@,
{
    let k = s[i].0@;
    assert(s[i].0@ == k);
    let j = choose|j: int| 0 <= j < s.len() && #[trigger] s[j].0@ == k;
    assert(j == i);
}

/// Replacing the handlers of one row changes what the table shows for that
/// row's type only.
pub proof fn lemma_handlers_update<H>(s: Seq<(String, Vec<H>)>, i: int, e: (String, Vec<H>), t: Seq<char>)
    requires
        types_distinct(s),
        0 <= i < s.len(),
        e.0@ == s[i].0@,
    ensures
        types_distinct(s.update(i, e)),
        handlers_in(s.update(i, e), t) == if t == e.0@ { e.1@ } else { handlers_in(s, t) },
{
    let u = s.update(i, e);
    assert(types_distinct(u)) by {
        assert forall|a: int, b: int| 0 <= a < b < u.len() implies u[a].0@ != u[b].0@ by {
            assert(u[a].0@ == s[a].0@);
            assert(u[b].0@ == s[b].0@);
        }
    }
    if t == e.0@ {
        lemma_handlers_at(u, i);
    } else {
        if exists|j: int| 0 <= j < s.len() && #[trigger] s[j].0@ == t {
            let j = choose|j: int| 0 <= j < s.len() && #[trigger] s[j].0@ == t;
            assert(j != i);
            assert(u[j] == s[j]);
            lemma_handlers_at(s, j);
            lemma_handlers_at(u, j);
        } else {
            assert forall|j: int| 0 <= j < u.len() implies #[trigger] u[j].0@ != t by {
                assert(u[j].0@ == s[j].0@);
            }
        }
    }
}

/// Appending a row for a new type shows its handlers under that type and
/// leaves the other types alone.
pub proof fn lemma_handlers_push<H>(s: Seq<(String, Vec<H>)>, e: (String, Vec<H>), t: Seq<char>)
    requires
        types_distinct(s),
        forall|j: int| 0 <= j < s.len() ==> #[trigger] s[j].0@ != e.0@,
    ensures
        types_distinct(s.push(e)),
        handlers_in(s.push(e), t) == if t == e.0@ { e.1@ } else { handlers_in(s, t) },
{
    let u = s.push(e);
    assert(types_distinct(u)) by {
        assert forall|a: int, b: int| 0 <= a < b < u.len() implies u[a].0@ != u[b].0@ by {
            if b == s.len() {
                assert(u[a] == s[a]);
            } else {
                assert(u[a] == s[a]);
                assert(u[b] == s[b]);
            }
        }
    }
    if t == e.0@ {
        lemma_handlers_at(u, s.len() as int);
    } else {
        if exists|j: int| 0 <= j < s.len() && #[trigger] s[j].0@ == t {
            let j = choose|j: int| 0 <= j < s.len() && #[trigger] s[j].0@ == t;
            assert(u[j] == s[j]);
            lemma_handlers_at(s, j);
            lemma_handlers_at(u, j);
        } else {
            assert forall|j: int| 0 <= j < u.len() implies #[trigger] u[j].0@ != t by {
                if j < s.len() {
                    assert(u[j] == s[j]);
                }
            }
        }
    }
}

/// What a round of dispatch to the handlers `hs` may end in: `Ok(false)`
/// when each handler answered `Ok(false)`; otherwise the answer of some
/// handler, every earlier one having answered `Ok(false)`.
pub open spec fn dispatch_outcome<D, E, H: Fn(&Event<D>) -> Result<bool, E>>(hs: Seq<H>, event: &Event<D>, r: Result<bool, E>) -> bool {
    match r {
        Ok(false) => forall|i: int| 0 <= i < hs.len()
            ==> call_ensures(#[trigger] hs[i], (event,), Ok::<bool, E>(false)),
        _ => exists|i: int| 0 <= i < hs.len()
            && call_ensures(#[trigger] hs[i], (event,), r)
            && forall|j: int| 0 <= j < i ==> call_ensures(#[trigger] hs[j], (event,), Ok::<bool, E>(false)),
    }
}

/// Law: an event of a type that has no handlers is reported unhandled.
pub proof fn law_no_handlers_not_handled<D, E, H: Fn(&Event<D>) -> Result<bool, E>>(event: &Event<D>, r: Result<bool, E>)
    requires
        dispatch_outcome(Seq::<H>::empty(), event, r),
    ensures
        r == Ok::<bool, E>(false),
{
}

/// The handlers by event type, and the target that has the keyboard.
pub struct EventDispatcher<H> {
    event_handlers: Vec<(String, Vec<H>)>,
    focus_target: Option<EventTarget>,
}

impl<H> EventDispatcher<H> {
    #[verifier::type_invariant]
    closed spec fn inv(self) -> bool {
        types_distinct(self.event_handlers@)
    }

    /// The handlers registered for `event_type`, in registration order.
    pub closed spec fn handlers(&self, event_type: Seq<char>) -> Seq<H> {
        handlers_in(self.event_handlers@, event_type)
    }

    /// The target that has the keyboard, if one was set.
    pub closed spec fn focus(&self) -> Option<EventTarget> {
        self.focus_target
    }

    /// A dispatcher with no handlers and no focus.
    pub fn new() -> (d: Self)
        ensures
            forall|t: Seq<char>| #[trigger] d.handlers(t) == Seq::<H>::empty(),
            d.focus() == None::<EventTarget>,
    {
        EventDispatcher { event_handlers: Vec::new(), focus_target: None }
    }

    /// The row of `event_type` in the table, if it has one.
    fn find_row(&self, event_type: &str) -> (r: Option<usize>)
        ensures
            match r {
                Some(i) => i < self.event_handlers@.len() && self.event_handlers@[i as int].0@ == event_type@,
                None => forall|j: int| 0 <= j < self.event_handlers@.len()
                    ==> #[trigger] self.event_handlers@[j].0@ != event_type@,
            },
    {
        let mut i: usize = 0;
        while i < self.event_handlers.len()
            invariant
                i <= self.event_handlers@.len(),
                forall|j: int| 0 <= j < i ==> #[trigger] self.event_handlers@[j].0@ != event_type@,
            decreases self.event_handlers@.len() - i,
        {
            if str_eq(self.event_handlers[i].0.as_str(), event_type) {
                return Some(i);
            }
            i += 1;
        }
        None
    }

    /// Adds `handler` after the handlers already registered for
    /// `event_type`.
    pub fn register_handler(&mut self, event_type: &str, handler: H)
        ensures
            final(self).focus() == old(self).focus(),
            final(self).handlers(event_type@) == old(self).handlers(event_type@).push(handler),
            forall|t: Seq<char>| t != event_type@ ==> #[trigger] final(self).handlers(t) == old(self).handlers(t),
    {
        proof {
            use_type_invariant(&*self);
        }
        let row = self.find_row(event_type);
        let mut table: Vec<(String, Vec<H>)> = Vec::new();
        std::mem::swap(&mut table, &mut self.event_handlers);
        let ghost before = table@;
        match row {
            Some(i) => {
                let (name, mut list) = table.remove(i);
                let ghost old_list = list@;
                proof {
                    lemma_handlers_at(before, i as int);
                }
                list.push(handler);
                table.insert(i, (name, list));
                proof {
                    assert(table@ =~= before.update(i as int, table@[i as int]));
                    assert forall|t: Seq<char>| #[trigger] handlers_in(table@, t)
                        == if t == event_type@ { old_list.push(handler) } else { handlers_in(before, t) } by {
                        lemma_handlers_update(before, i as int, table@[i as int], t);
                    }
                    lemma_handlers_update(before, i as int, table@[i as int], event_type@);
                }
            },
            None => {
                let mut list: Vec<H> = Vec::new();
                list.push(handler);
                let entry = (event_type.to_string(), list);
                table.push(entry);
                proof {
                    assert(table@ =~= before.push(entry));
                    assert(!(exists|j: int| 0 <= j < before.len() && #[trigger] before[j].0@ == event_type@));
                    assert forall|t: Seq<char>| #[trigger] handlers_in(table@, t)
                        == if t == event_type@ { seq![handler] } else { handlers_in(before, t) } by {
                        lemma_handlers_push(before, entry, t);
                    }
                    lemma_handlers_push(before, entry, event_type@);
                    assert(seq![handler] =~= Seq::<H>::empty().push(handler));
                }
            },
        }
        self.event_handlers = table;
    }

    /// Hands `event` to the handlers of its type, in registration order,
    /// until one reports it handled; a handler's error ends the round and is
    /// passed on. `Ok(false)` when no handler took it.
    pub fn dispatch_event<D, E>(&self, event: Event<D>) -> (r: Result<bool, E>)
        where H: Fn(&Event<D>) -> Result<bool, E>,
        requires
            forall|i: int| 0 <= i < self.handlers(event.event_type@).len()
                ==> call_requires(#[trigger] self.handlers(event.event_type@)[i], (&event,)),
        ensures
            dispatch_outcome(self.handlers(event.event_type@), &event, r),
    {
        proof {
            use_type_invariant(self);
        }
        let row = self.find_row(event.event_type.as_str());
        match row {
            Some(k) => {
                proof {
                    lemma_handlers_at(self.event_handlers@, k as int);
                }
                let handlers = &self.event_handlers[k].1;
                let ghost hs = handlers@;
                let mut i: usize = 0;
                while i < handlers.len()
                    invariant
                        hs == handlers@,
                        hs == self.handlers(event.event_type@),
                        i <= hs.len(),
                        forall|j: int| 0 <= j < hs.len() ==> call_requires(#[trigger] hs[j], (&event,)),
                        forall|j: int| 0 <= j < i ==> call_ensures(#[trigger] hs[j], (&event,), Ok::<bool, E>(false)),
                    decreases hs.len() - i,
                {
                    let outcome = (handlers[i])(&event);
                    match outcome {
                        Ok(false) => {},
                        _ => {
                            return outcome;
                        },
                    }
                    i += 1;
                }
                Ok(false)
            },
            None => {
                proof {
                    assert(!(exists|j: int| 0 <= j < self.event_handlers@.len()
                        && #[trigger] self.event_handlers@[j].0@ == event.event_type@));
                }
                Ok(false)
            },
        }
    }

    /// Gives the keyboard to `target`.
    pub fn set_focus(&mut self, target: EventTarget)
        ensures
            final(self).focus() == Some(target),
            forall|t: Seq<char>| #[trigger] final(self).handlers(t) == old(self).handlers(t),
    {
        proof {
            use_type_invariant(&*self);
        }
        self.focus_target = Some(target);
    }

    /// The target that has the keyboard, if one was set.
    pub fn get_focus(&self) -> (r: Option<&EventTarget>)
        ensures
            match r {
                Some(t) => self.focus() == Some(*t),
                None => self.focus() is None,
            },
    {
        match &self.focus_target {
            Some(t) => Some(t),
            None => None,
        }
    }

    /// Where a key press goes: to the focused target, or to the document
    /// when nothing has the focus.
    pub fn route_keyboard_event<K>(&self, _key_event: &K) -> (t: EventTarget)
        ensures
            t == match self.focus() {
                Some(f) => f,
                None => EventTarget::Dom,
            },
    {
        match &self.focus_target {
            Some(target) => *target,
            None => EventTarget::Dom,
        }
    }
}

impl<H> Default for EventDispatcher<H> {
    fn default() -> (d: Self)
        ensures
            forall|t: Seq<char>| #[trigger] d.handlers(t) == Seq::<H>::empty(),
            d.focus() == None::<EventTarget>,
    {
        Self::new()
    }
}

} // verus!
