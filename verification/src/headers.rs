use vstd::prelude::*;

use crate::json::{lookup, set_entry, lemma_first_key, is_first_key, has_key, distinct_keys};
use crate::text::str_eq;

verus! {

/// The HTTP headers of a request, by lowercase name; a later value for a name
/// replaces an earlier one.
///
/// The entries are a vector with distinct names rather than a
/// `HashMap<String, String>`: the headers are also handed out whole (`pairs`),
/// and vstd's `StringHashMap` has no way to walk its entries, while vstd's
/// specification of `HashMap` holds only for key types known to obey its key
/// model, which `String` is not declared to.
pub struct Headers {
    entries: Vec<(String, String)>,
}

pub open spec fn header_entries_view(es: Seq<(String, String)>) -> Seq<(Seq<char>, Seq<char>)> {
    Seq::new(es.len(), |i: int| (es[i].0@, es[i].1@))
}

impl View for Headers {
    type V = Seq<(Seq<char>, Seq<char>)>;

    closed spec fn view(&self) -> Seq<(Seq<char>, Seq<char>)> {
        header_entries_view(self.entries@)
    }
}

/// The value of header `name`.
pub open spec fn header(h: Seq<(Seq<char>, Seq<char>)>, name: Seq<char>) -> Option<Seq<char>> {
    lookup(h, name)
}

impl Headers {
    #[verifier::type_invariant]
    closed spec fn inv(self) -> bool {
        distinct_keys(header_entries_view(self.entries@))
    }

    pub fn new() -> (r: Headers)
        ensures
            r@ == Seq::<(Seq<char>, Seq<char>)>::empty(),
    {
        let r = Headers { entries: Vec::new() };
        assert(r@ =~= Seq::<(Seq<char>, Seq<char>)>::empty());
        r
    }

    /// Sets header `name` to `value`, giving back the value it had before.
    pub fn insert(&mut self, name: String, value: String) -> (r: Option<String>)
        ensures
            final(self)@ == set_entry(old(self)@, name@, value@),
            r matches Some(v) ==> header(old(self)@, name@) == Some(v@),
            r is None ==> header(old(self)@, name@) is None,
    {
        proof {
            use_type_invariant(&*self);
        }
        let ghost es = self@;
        let ghost nm = name@;
        let ghost vm = value@;
        proof {
            lemma_first_key(es, nm);
        }
        let mut entries: Vec<(String, String)> = Vec::new();
        std::mem::swap(&mut entries, &mut self.entries);
        let mut i: usize = 0;
        while i < entries.len()
            invariant
                0 <= i <= entries.len(),
                es == header_entries_view(entries@),
                es == old(self)@,
                distinct_keys(es),
                nm == name@,
                vm == value@,
                forall|j: int| 0 <= j < i ==> (#[trigger] es[j]).0 != nm,
            decreases entries.len() - i,
        {
            if str_eq(entries[i].0.as_str(), name.as_str()) {
                proof {
                    assert(is_first_key(es, nm, i as int));
                    lemma_first_key(es, nm);
                }
                let ghost prev = entries@[i as int].1@;
                let mut entry = (name, value);
                entries.set_and_swap(i, &mut entry);
                proof {
                    assert(entries@[i as int].0@ == nm);
                    assert(entries@[i as int].1@ == vm);
                    assert(header_entries_view(entries@) =~= set_entry(es, nm, vm));
                    assert(entry.1@ == prev);
                    let ne = header_entries_view(entries@);
                    assert forall|a: int, b: int| 0 <= a < ne.len() && 0 <= b < ne.len() && a != b implies (#[trigger] ne[a]).0 != (#[trigger] ne[b]).0 by {
                        assert(ne[a].0 == es[a].0);
                        assert(ne[b].0 == es[b].0);
                    }
                }
                self.entries = entries;
                return Some(entry.1);
            }
            i += 1;
        }
        entries.push((name, value));
        proof {
            assert(header_entries_view(entries@) =~= set_entry(es, nm, vm));
            assert(!has_key(es, nm));
            let ne = header_entries_view(entries@);
            assert forall|a: int, b: int| 0 <= a < ne.len() && 0 <= b < ne.len() && a != b implies (#[trigger] ne[a]).0 != (#[trigger] ne[b]).0 by {
                if a < es.len() {
                    assert(ne[a] == es[a]);
                }
                if b < es.len() {
                    assert(ne[b] == es[b]);
                }
            }
        }
        self.entries = entries;
        None
    }

    /// The (name, value) pairs, no name twice.
    pub fn pairs(&self) -> (r: &Vec<(String, String)>)
        ensures
            header_entries_view(r@) == self@,
            distinct_keys(self@),
    {
        proof {
            use_type_invariant(self);
        }
        &self.entries
    }

    /// The value of header `name`.
    pub fn get(&self, name: &str) -> (r: Option<&String>)
        ensures
            r matches Some(v) ==> header(self@, name@) == Some(v@),
            r is None ==> header(self@, name@) is None,
    {
        let ghost es = self@;
        proof {
            lemma_first_key(es, name@);
        }
        let mut i: usize = 0;
        while i < self.entries.len()
            invariant
                0 <= i <= self.entries.len(),
                es == self@,
                es == header_entries_view(self.entries@),
                forall|j: int| 0 <= j < i ==> (#[trigger] es[j]).0 != name@,
            decreases self.entries.len() - i,
        {
            if str_eq(self.entries[i].0.as_str(), name) {
                proof {
                    assert(is_first_key(es, name@, i as int));
                    lemma_first_key(es, name@);
                }
                return Some(&self.entries[i].1);
            }
            i += 1;
        }
        None
    }
}

} // verus!
