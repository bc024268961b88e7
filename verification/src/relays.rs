//! The relay list: the set of endpoints a session publishes to and fetches
//! from. Reading and writing the configuration file stays outside; this
//! module owns the list's rules: no duplicates are added, and removal takes
//! out the first match.

use vstd::prelude::*;
use crate::keyvault::str_equal;

verus! {

/// The configured relays, in the order they were added.
pub struct RelayConfig {
    /// Relay endpoint addresses.
    pub relays: Vec<String>,
}

/// Whether a list of texts holds the given text.
pub open spec fn holds_url(urls: Seq<Seq<char>>, url: Seq<char>) -> bool {
    exists|i: int| 0 <= i < urls.len() && urls[i] == url
}

/// The first position of the given text in the list, or its length when it
/// is not there.
pub open spec fn first_url_at(urls: Seq<Seq<char>>, url: Seq<char>) -> int
    decreases urls.len(),
{
    if urls.len() == 0 {
        0
    } else if urls[0] == url {
        0
    } else {
        1 + first_url_at(urls.skip(1), url)
    }
}

/// Where the first match stands: within bounds when the text is held, with
/// no match before it.
pub proof fn lemma_first_url_at(urls: Seq<Seq<char>>, url: Seq<char>)
    ensures
        0 <= first_url_at(urls, url) <= urls.len(),
        holds_url(urls, url) <==> first_url_at(urls, url) < urls.len(),
        first_url_at(urls, url) < urls.len() ==> urls[first_url_at(urls, url)] == url,
        forall|i: int| 0 <= i < first_url_at(urls, url) ==> urls[i] != url,
    decreases urls.len(),
{
    if urls.len() > 0 && urls[0] != url {
        lemma_first_url_at(urls.skip(1), url);
        assert(forall|i: int| 1 <= i < urls.len() ==> urls[i] == urls.skip(1)[i - 1]);
        if holds_url(urls, url) {
            let w = choose|i: int| 0 <= i < urls.len() && urls[i] == url;
            assert(urls.skip(1)[w - 1] == url);
        }
    }
}

impl RelayConfig {
    /// The relay texts, as sequences of characters.
    pub open spec fn urls(&self) -> Seq<Seq<char>> {
        self.relays.deep_view()
    }

    /// An empty configuration.
    pub fn new() -> (c: RelayConfig)
        ensures
            c.urls().len() == 0,
    {
        let c = RelayConfig { relays: Vec::new() };
        c
    }

    /// Whether the given relay is already configured.
    pub fn contains_relay(&self, url: &str) -> (r: bool)
        ensures
            r == holds_url(self.urls(), url@),
    {
        let n = self.relays.len();
        proof {
            assert(self.urls().len() == n);
        }
        let mut i: usize = 0;
        while i < n
            invariant
                i <= n,
                n == self.relays@.len(),
                self.urls().len() == n,
                forall|k: int| 0 <= k < i ==> self.urls()[k] != url@,
                forall|k: int| 0 <= k < n ==> self.urls()[k] == self.relays@[k]@,
            decreases n - i,
        {
            if str_equal(self.relays[i].as_str(), url) {
                proof {
                    assert(self.urls()[i as int] == url@);
                }
                return true;
            }
            i = i + 1;
        }
        proof {
            if holds_url(self.urls(), url@) {
                let w = choose|k: int|
                    0 <= k < self.urls().len() && self.urls()[k] == url@;
            }
        }
        false
    }

    /// Adds a relay unless it is already configured; says whether it was
    /// added. An added relay goes to the end; nothing else moves.
    pub fn add_relay(&mut self, url: &str) -> (added: bool)
        ensures
            added == !holds_url(old(self).urls(), url@),
            added ==> final(self).urls() == old(self).urls().push(url@),
            !added ==> *final(self) == *old(self),
    {
        if self.contains_relay(url) {
            return false;
        }
        let owned: String = url.to_owned();
        self.relays.push(owned);
        proof {
            assert(self.urls() =~= old(self).urls().push(url@));
        }
        true
    }

    /// Removes the first entry equal to the given relay, if any; says
    /// whether one was removed. Everything else keeps its order.
    pub fn remove_relay(&mut self, url: &str) -> (removed: bool)
        ensures
            removed == holds_url(old(self).urls(), url@),
            removed ==> final(self).urls() == old(self).urls().remove(
                first_url_at(old(self).urls(), url@),
            ),
            !removed ==> *final(self) == *old(self),
    {
        proof {
            lemma_first_url_at(old(self).urls(), url@);
        }
        let n = self.relays.len();
        let mut i: usize = 0;
        while i < n
            invariant
                i <= n,
                n == self.relays@.len(),
                *self == *old(self),
                forall|k: int| 0 <= k < i ==> self.urls()[k] != url@,
                forall|k: int| 0 <= k < n ==> self.urls()[k] == self.relays@[k]@,
            decreases n - i,
        {
            if str_equal(self.relays[i].as_str(), url) {
                proof {
                    assert(old(self).urls()[i as int] == url@);
                    lemma_first_url_at(old(self).urls(), url@);
                    let f = first_url_at(old(self).urls(), url@);
                    assert(f < old(self).urls().len());
                    if f < i {
                        assert(old(self).urls()[f] != url@);
                    }
                    if f > i {
                        assert(old(self).urls()[i as int] != url@);
                    }
                    assert(f == i);
                }
                self.relays.remove(i);
                proof {
                    assert(self.urls() =~= old(self).urls().remove(i as int));
                }
                return true;
            }
            i = i + 1;
        }
        proof {
            if holds_url(old(self).urls(), url@) {
                let w = choose|k: int|
                    0 <= k < old(self).urls().len() && old(self).urls()[k] == url@;
            }
        }
        false
    }
}

} // verus!
