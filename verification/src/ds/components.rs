//! The components.json model.
//!
//! A component has three parts: `variants` (axes and their values), `slots`
//! (named content holes, optional when the schema literal ends in `?`) and
//! `tokens` (named token refs resolved through the design system's tokens).
//! Every map lists its keys in ascending order, each once.

use vstd::prelude::*;
use crate::sorted_keys::{keys_ascending, lemma_sorted_from_values, sorted_entries, sorted_from, text_less};
use crate::text::{chars_of, find_keyed, keyed, keys, keys_of, string_from_range};

verus! {

/// A slot's accepted content kind.
#[derive(Debug, Clone)]
pub struct SlotKind {
    pub kind: String,
    pub optional: bool,
}

/// One component contract, e.g. `button.primary`.
#[derive(Debug)]
pub struct ComponentSpec {
    pub variants: Vec<(String, Vec<String>)>,
    pub slots: Vec<(String, SlotKind)>,
    pub tokens: Vec<(String, String)>,
}

/// Parsed components.json.
#[derive(Debug)]
pub struct Components {
    pub version: String,
    pub items: Vec<(String, ComponentSpec)>,
}

/// The slot a schema literal describes: one trailing `?` marks it optional
/// and is not part of the kind.
pub open spec fn slot_of_literal(raw: Seq<char>) -> (Seq<char>, bool) {
    if raw.len() > 0 && raw.last() == '?' {
        (raw.drop_last(), true)
    } else {
        (raw, false)
    }
}

impl SlotKind {
    /// Reads a slot literal such as `"text"` or `"text?"`.
    pub fn from_literal(raw: &str) -> (r: SlotKind)
        ensures
            (r.kind@, r.optional) == slot_of_literal(raw@),
    {
        let v = chars_of(raw);
        let n = v.len();
        if n > 0 && v[n - 1] == '?' {
            let kind = string_from_range(&v, 0, n - 1);
            assert(v@.subrange(0, n - 1) =~= raw@.drop_last());
            SlotKind { kind, optional: true }
        } else {
            let kind = string_from_range(&v, 0, n);
            assert(v@.subrange(0, n as int) =~= raw@);
            SlotKind { kind, optional: false }
        }
    }
}

impl ComponentSpec {
    /// Every map's keys ascend, each once.
    pub open spec fn wf(&self) -> bool {
        keys_ascending(self.variants@) && keys_ascending(self.slots@) && keys_ascending(self.tokens@)
    }

    /// A component contract from the entries of its three maps; each map
    /// comes out in key order, and a repeated key keeps its last value.
    pub fn new(
        variants: Vec<(String, Vec<String>)>,
        slots: Vec<(String, SlotKind)>,
        tokens: Vec<(String, String)>,
    ) -> (r: ComponentSpec)
        ensures
            r.variants@ == sorted_from(variants@),
            r.slots@ == sorted_from(slots@),
            r.tokens@ == sorted_from(tokens@),
            r.wf(),
    {
        ComponentSpec {
            variants: sorted_entries(variants),
            slots: sorted_entries(slots),
            tokens: sorted_entries(tokens),
        }
    }
}

/// The components are listed by ascending name, each once, and each
/// contract is well formed.
pub open spec fn components_wf(c: &Components) -> bool {
    keys_ascending(c.items@) && forall|i: int| 0 <= i < c.items@.len() ==> (#[trigger] c.items@[i]).1.wf()
}

impl Default for Components {
    fn default() -> (r: Components)
        ensures
            r.version@ == Seq::<char>::empty(),
            r.items@.len() == 0,
    {
        Components { version: String::new(), items: Vec::new() }
    }
}

impl Components {
    /// The components from their named contracts, by ascending name; a
    /// repeated name keeps its last contract.
    pub fn from_entries(version: String, items: Vec<(String, ComponentSpec)>) -> (r: Components)
        ensures
            r.version == version,
            r.items@ == sorted_from(items@),
            (forall|i: int| 0 <= i < items@.len() ==> (#[trigger] items@[i]).1.wf()) ==> components_wf(&r),
    {
        proof {
            if forall|i: int| 0 <= i < items@.len() ==> (#[trigger] items@[i]).1.wf() {
                lemma_sorted_from_values(items@, |c: ComponentSpec| c.wf());
            }
        }
        Components { version, items: sorted_entries(items) }
    }

    /// The contract of the component with this name.
    pub fn get(&self, name: &str) -> (r: Option<&ComponentSpec>)
        ensures
            match r {
                Some(c) => keyed(self.items@, name@) == Some(*c),
                None => keyed(self.items@, name@) is None,
            },
    {
        find_keyed(&self.items, name)
    }

    /// The component names, in order.
    pub fn names(&self) -> (r: Vec<String>)
        ensures
            r@.map_values(|s: String| s@) == keys_of(self.items@),
            keys_ascending(self.items@) ==> forall|i: int, j: int|
                0 <= i < j < r@.len() ==> text_less(#[trigger] r@[i]@, #[trigger] r@[j]@),
    {
        let r = keys(&self.items);
        proof {
            assert(r@.map_values(|s: String| s@).len() == r@.len());
            assert(keys_of(self.items@).len() == self.items@.len());
            assert forall|i: int, j: int| 0 <= i < j < r@.len() && keys_ascending(self.items@) implies text_less(
                #[trigger] r@[i]@,
                #[trigger] r@[j]@,
            ) by {
                assert(r@.map_values(|s: String| s@)[i] == r@[i]@);
                assert(r@.map_values(|s: String| s@)[j] == r@[j]@);
                assert(keys_of(self.items@)[i] == self.items@[i].0@);
                assert(keys_of(self.items@)[j] == self.items@[j].0@);
                assert(text_less(self.items@[i].0@, self.items@[j].0@));
            }
        }
        r
    }
}

} // verus!
