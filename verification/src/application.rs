//! The extension registry: handlers registered under a topic segment, and
//! the dispatch of a path and a payload to those registered under the
//! path's first segment.

use vstd::prelude::*;
use vstd::slice::*;
use vstd::string::*;
use vstd::utf8::*;
use crate::common::ZinkMessage;
use crate::topic::{routable, routable_path, strings_view};

verus! {

/// A consumer of routed payloads. The registry hands it the path that is
/// left behind the segment it was registered under, and the payload; it
/// gives nothing back.
pub trait Extension: Sync + Send {
    fn handle_request(&self, path: &[&str], payload: &[u8]);
}

/// One registration: a handler and the key it was registered under.
struct Registration<'a> {
    name: &'a str,
    extension: Box<dyn Extension>,
}

impl<'a> Registration<'a> {
    fn new(name: &'a str, extension: Box<dyn Extension>) -> (registration: Registration<'a>)
        ensures
            registration.name == name,
    {
        Registration { name, extension }
    }
}

/// The registry. Handlers are registered at startup and never removed;
/// several may share a key.
pub struct Application<'a> {
    extensions: Vec<Registration<'a>>,
}

/// The models of the segments of a path, in the path's order.
pub open spec fn path_view(path: Seq<&str>) -> Seq<Seq<char>> {
    Seq::new(path.len(), |i: int| path[i]@)
}

/// Positions in a list, as numbers.
pub open spec fn positions(indices: Seq<usize>) -> Seq<int> {
    Seq::new(indices.len(), |i: int| indices[i] as int)
}

/// The positions in `keys` at which `key` stands, in increasing order.
pub open spec fn registered_under(keys: Seq<Seq<char>>, key: Seq<char>) -> Seq<int>
    decreases keys.len(),
{
    if keys.len() == 0 {
        Seq::empty()
    } else if keys.last() == key {
        registered_under(keys.drop_last(), key).push(keys.len() - 1)
    } else {
        registered_under(keys.drop_last(), key)
    }
}

/// The handlers a path is dispatched to, by their position in the order of
/// registration: none for the empty path, else those registered under its
/// first segment.
pub open spec fn recipients(keys: Seq<Seq<char>>, path: Seq<Seq<char>>) -> Seq<int> {
    if path.len() == 0 {
        Seq::empty()
    } else {
        registered_under(keys, path[0])
    }
}

/// Whether two texts are the same, found by comparing their UTF-8 bytes.
pub fn same_text(a: &str, b: &str) -> (same: bool)
    ensures
        same == (a@ == b@),
{
    let x = a.as_bytes();
    let y = b.as_bytes();
    if x.len() != y.len() {
        return false;
    }
    let mut i: usize = 0;
    while i < x.len()
        invariant
            i <= x.len(),
            x.len() == y.len(),
            x@ == encode_utf8(a@),
            y@ == encode_utf8(b@),
            forall|j: int| 0 <= j < i ==> x@[j] == y@[j],
        decreases x.len() - i,
    {
        if x[i] != y[i] {
            return false;
        }
        i = i + 1;
    }
    proof {
        assert(x@ =~= y@);
        encode_utf8_decode_utf8(a@);
        encode_utf8_decode_utf8(b@);
    }
    true
}

/// Borrows every string of a list.
fn borrow_all(strings: &Vec<String>) -> (borrowed: Vec<&str>)
    ensures
        path_view(borrowed@) == strings_view(strings@),
{
    let mut borrowed: Vec<&str> = Vec::new();
    let mut i: usize = 0;
    while i < strings.len()
        invariant
            i <= strings.len(),
            borrowed@.len() == i,
            forall|j: int| 0 <= j < i ==> (#[trigger] borrowed@[j])@ == strings@[j]@,
        decreases strings.len() - i,
    {
        borrowed.push(strings[i].as_str());
        i = i + 1;
    }
    assert(path_view(borrowed@) =~= strings_view(strings@));
    borrowed
}

impl<'a> Application<'a> {
    /// The keys handlers were registered under, in the order of registration.
    pub closed spec fn keys(&self) -> Seq<Seq<char>> {
        Seq::new(self.extensions@.len(), |i: int| self.extensions@[i].name@)
    }

    /// A registry without handlers.
    pub fn new() -> (app: Application<'a>)
        ensures
            app.keys() == Seq::<Seq<char>>::empty(),
    {
        let app = Application { extensions: Vec::new() };
        assert(app.keys() =~= Seq::<Seq<char>>::empty());
        app
    }

    /// Registers `extension` under `extension_name`, behind the handlers
    /// registered before.
    pub fn register_extension(&mut self, extension_name: &'a str, extension: Box<dyn Extension>)
        ensures
            final(self).keys() == old(self).keys().push(extension_name@),
    {
        self.extensions.push(Registration::new(extension_name, extension));
        assert(self.keys() =~= old(self).keys().push(extension_name@));
    }

    /// The handlers `path` is dispatched to, by position.
    pub fn select(&self, path: &[&str]) -> (hits: Vec<usize>)
        ensures
            positions(hits@) == recipients(self.keys(), path_view(path@)),
            forall|j: int| 0 <= j < hits.len() ==> hits@[j] < self.keys().len(),
    {
        let mut hits: Vec<usize> = Vec::new();
        if path.len() == 0 {
            assert(positions(hits@) =~= Seq::<int>::empty());
            return hits;
        }
        let ghost key = path@[0]@;
        let mut i: usize = 0;
        assert(self.keys().take(0) =~= Seq::<Seq<char>>::empty());
        assert(positions(hits@) =~= Seq::<int>::empty());
        while i < self.extensions.len()
            invariant
                i <= self.extensions.len(),
                self.extensions.len() == self.keys().len(),
                path.len() > 0,
                key == path@[0]@,
                positions(hits@) == registered_under(self.keys().take(i as int), key),
                forall|j: int| 0 <= j < hits.len() ==> hits@[j] < i,
            decreases self.extensions.len() - i,
        {
            let ghost found = positions(hits@);
            let ghost longer = self.keys().take(i + 1);
            assert(longer.drop_last() =~= self.keys().take(i as int));
            assert(longer.last() == self.extensions@[i as int].name@);
            if same_text(self.extensions[i].name, path[0]) {
                hits.push(i);
                assert(positions(hits@) =~= found.push(i as int));
            }
            i = i + 1;
        }
        assert(self.keys().take(i as int) =~= self.keys());
        hits
    }

    /// Dispatches: every handler registered under the first segment of
    /// `path` is invoked once, in the order of registration, with the rest
    /// of the path and with `payload`. The positions of the handlers that
    /// were invoked are returned, in that order; for an empty path, or a
    /// first segment nothing is registered under, nothing is invoked.
    pub fn handle_request(&self, path: &[&str], payload: &[u8]) -> (invoked: Vec<usize>)
        ensures
            positions(invoked@) == recipients(self.keys(), path_view(path@)),
    {
        let hits = self.select(path);
        if path.len() == 0 {
            return hits;
        }
        let rest = slice_subrange(path, 1, path.len());
        let mut k: usize = 0;
        while k < hits.len()
            invariant
                k <= hits.len(),
                self.extensions.len() == self.keys().len(),
                forall|j: int| 0 <= j < hits.len() ==> hits@[j] < self.keys().len(),
            decreases hits.len() - k,
        {
            self.extensions[hits[k]].extension.handle_request(rest, payload);
            k = k + 1;
        }
        hits
    }

    /// Dispatches a published message: the topic is split at its slashes,
    /// its first two segments are dropped, and what is left is dispatched
    /// with the payload. A topic of fewer than two segments goes nowhere.
    pub fn dispatch(&self, message: &ZinkMessage) -> (invoked: Vec<usize>)
        ensures
            positions(invoked@) == match routable(message@.path) {
                Some(path) => recipients(self.keys(), path),
                None => Seq::empty(),
            },
    {
        match routable_path(message.path.as_str()) {
            Some(segments) => {
                let path = borrow_all(&segments);
                self.handle_request(path.as_slice(), message.payload.as_slice())
            },
            None => {
                let invoked: Vec<usize> = Vec::new();
                assert(positions(invoked@) =~= Seq::<int>::empty());
                invoked
            },
        }
    }
}

// ------------------------------------------------------------------ laws
/// What `registered_under` lists: exactly the positions at which the key
/// stands, each once, in increasing order.
pub proof fn law_registered_under(keys: Seq<Seq<char>>, key: Seq<char>)
    ensures
        forall|j: int|
            0 <= j < registered_under(keys, key).len() ==> 0 <= (#[trigger] registered_under(
                keys,
                key,
            )[j]) < keys.len() && keys[registered_under(keys, key)[j]] == key,
        forall|i: int|
            0 <= i < keys.len() && #[trigger] keys[i] == key ==> registered_under(
                keys,
                key,
            ).contains(i),
        forall|j: int, k: int|
            0 <= j < k < registered_under(keys, key).len() ==> (#[trigger] registered_under(
                keys,
                key,
            )[j]) < (#[trigger] registered_under(keys, key)[k]),
    decreases keys.len(),
{
    let found = registered_under(keys, key);
    if keys.len() > 0 {
        let before = keys.drop_last();
        let earlier = registered_under(before, key);
        law_registered_under(before, key);
        assert forall|j: int| 0 <= j < found.len() implies 0 <= (#[trigger] found[j]) < keys.len()
            && keys[found[j]] == key by {
            if j < earlier.len() {
                assert(found[j] == earlier[j]);
                assert(before[earlier[j]] == keys[earlier[j]]);
            }
        }
        assert forall|i: int| 0 <= i < keys.len() && #[trigger] keys[i] == key implies found.contains(
            i,
        ) by {
            if i < keys.len() - 1 {
                assert(before[i] == key);
                assert(earlier.contains(i));
                let j = choose|j: int| 0 <= j < earlier.len() && earlier[j] == i;
                assert(found[j] == i);
            } else {
                assert(found[found.len() - 1] == i);
            }
        }
        assert forall|j: int, k: int| 0 <= j < k < found.len() implies (#[trigger] found[j]) < (
        #[trigger] found[k]) by {
            assert(found[j] == earlier[j]);
            if k < earlier.len() {
                assert(found[k] == earlier[k]);
            }
        }
    }
}

/// Fan-out: registering one more handler under a key puts it behind those
/// already registered under it, so that every handler registered under the
/// key a path opens with is a recipient, once for each registration and in
/// the order of registration.
pub proof fn law_fan_out(keys: Seq<Seq<char>>, key: Seq<char>, path: Seq<Seq<char>>)
    requires
        path.len() > 0,
    ensures
        path[0] == key ==> recipients(keys.push(key), path) == recipients(keys, path).push(
            keys.len() as int,
        ),
        path[0] != key ==> recipients(keys.push(key), path) == recipients(keys, path),
{
    assert(keys.push(key).drop_last() =~= keys);
}

/// A miss is silent: a path that opens with a key nothing is registered
/// under has no recipients, and neither has the empty path.
pub proof fn law_miss_is_silent(keys: Seq<Seq<char>>, path: Seq<Seq<char>>)
    requires
        path.len() == 0 || forall|i: int| 0 <= i < keys.len() ==> keys[i] != path[0],
    ensures
        recipients(keys, path) == Seq::<int>::empty(),
    decreases keys.len(),
{
    if path.len() > 0 && keys.len() > 0 {
        law_miss_is_silent(keys.drop_last(), path);
    }
}

} // verus!
