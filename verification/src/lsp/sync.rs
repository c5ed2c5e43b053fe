//! Which documents a language server has caught up with.

use vstd::prelude::*;

use crate::language::Language;
use crate::lsp::client;
use crate::lsp::client::LspState;
use crate::scan;
use crate::text::same;

verus! {

/// The documents with diagnostics since the server was last sent their text.
#[derive(Debug)]
pub struct CaughtUp {
    pub uris: Vec<String>,
}

impl View for CaughtUp {
    type V = Set<Seq<char>>;

    open spec fn view(&self) -> Set<Seq<char>> {
        scan::string_views(self.uris@).to_set()
    }
}

/// The server has caught up with a document: it has published diagnostics since it was
/// last sent the text, and it does not index any more.
pub open spec fn idle(
    caught_up: Set<Seq<char>>,
    known: client::StateModel,
    l: Language,
    uri: Seq<char>,
) -> bool {
    caught_up.contains(uri) && !(l != Language::Elm && !known.quiescent)
}

impl CaughtUp {
    /// A server that was just started has caught up with nothing.
    pub fn new() -> (r: CaughtUp)
        ensures
            r@ == Set::<Seq<char>>::empty(),
    {
        let r = CaughtUp { uris: Vec::new() };
        assert(r@ =~= Set::<Seq<char>>::empty());
        r
    }

    /// Whether there are diagnostics since a document's text was last sent.
    pub fn contains(&self, uri: &str) -> (r: bool)
        ensures
            r == self@.contains(uri@),
    {
        let ghost all = scan::string_views(self.uris@);
        let mut i: usize = 0;
        while i < self.uris.len()
            invariant
                i <= self.uris@.len(),
                all == scan::string_views(self.uris@),
                forall|k: int| 0 <= k < i ==> #[trigger] all[k] != uri@,
            decreases self.uris@.len() - i,
        {
            assert(all[i as int] == self.uris@[i as int]@);
            if same(&self.uris[i], uri) {
                assert(all.contains(all[i as int]));
                return true;
            }
            i += 1;
        }
        false
    }

    /// The text of a document was sent.
    pub fn synced(&mut self, uri: &str)
        ensures
            final(self)@ == old(self)@.remove(uri@),
    {
        let ghost all = scan::string_views(self.uris@);
        let mut kept: Vec<String> = Vec::new();
        let mut i: usize = 0;
        while i < self.uris.len()
            invariant
                i <= self.uris@.len(),
                *self == *old(self),
                all == scan::string_views(self.uris@),
                forall|k: int|
                    0 <= k < kept@.len() ==> (#[trigger] kept@[k])@ != uri@ && all.contains(
                        kept@[k]@,
                    ),
                forall|k: int|
                    0 <= k < i && #[trigger] all[k] != uri@ ==> scan::string_views(
                        kept@,
                    ).contains(all[k]),
            decreases self.uris@.len() - i,
        {
            assert(all[i as int] == self.uris@[i as int]@);
            if !same(&self.uris[i], uri) {
                let ghost before = kept@;
                kept.push(self.uris[i].clone());
                proof {
                    let (x, y) = (scan::string_views(before), scan::string_views(kept@));
                    assert(y =~= x.push(all[i as int]));
                    assert(y[before.len() as int] == all[i as int]);
                    assert forall|k: int|
                        0 <= k < i + 1 && #[trigger] all[k] != uri@ implies y.contains(all[k]) by {
                        if k < i {
                            let j = choose|j: int| 0 <= j < x.len() && x[j] == all[k];
                            assert(y[j] == all[k]);
                        }
                    }
                }
            }
            i += 1;
        }
        self.uris = kept;
        proof {
            let left = scan::string_views(self.uris@);
            assert forall|u: Seq<char>| left.to_set().contains(u) == all.to_set().remove(
                uri@,
            ).contains(u) by {
                if left.contains(u) {
                    let k = choose|k: int| 0 <= k < left.len() && left[k] == u;
                    assert(left[k] == self.uris@[k]@);
                }
                if all.contains(u) && u != uri@ {
                    let k = choose|k: int| 0 <= k < all.len() && all[k] == u;
                    assert(all[k] != uri@);
                }
            }
            assert(self@ =~= old(self)@.remove(uri@));
        }
    }

    /// Diagnostics of a document were published.
    pub fn published(&mut self, uri: &str)
        ensures
            final(self)@ == old(self)@.insert(uri@),
    {
        if self.contains(uri) {
            assert(self@ =~= old(self)@.insert(uri@));
            return;
        }
        let ghost all = scan::string_views(self.uris@);
        self.uris.push(uri.to_string());
        proof {
            let now = scan::string_views(self.uris@);
            assert(now =~= all.push(uri@));
            assert forall|u: Seq<char>| now.to_set().contains(u) == all.to_set().insert(
                uri@,
            ).contains(u) by {
                if now.contains(u) && u != uri@ {
                    let k = choose|k: int| 0 <= k < now.len() && now[k] == u;
                    assert(all[k] == u);
                }
                if all.contains(u) {
                    let k = choose|k: int| 0 <= k < all.len() && all[k] == u;
                    assert(now[k] == u);
                }
                assert(now[all.len() as int] == uri@);
            }
            assert(self@ =~= old(self)@.insert(uri@));
        }
    }

    /// Whether the server has caught up with a document.
    pub fn is_idle(&self, known: &LspState, l: Language, uri: &str) -> (r: bool)
        ensures
            r == idle(self@, known@, l, uri@),
    {
        self.contains(uri) && !known.is_indexing(l)
    }

    /// What becomes of waiting for the server to catch up with a document: `Some(true)`
    /// once it has, `Some(false)` once the time is up, `None` as long as it goes on.
    pub fn wait_until_idle(
        &self,
        known: &LspState,
        l: Language,
        uri: &str,
        elapsed_ms: u64,
        timeout_ms: u64,
    ) -> (r: Option<bool>)
        ensures
            r == (if idle(self@, known@, l, uri@) {
                Some(true)
            } else if elapsed_ms >= timeout_ms {
                Some(false)
            } else {
                None
            }),
    {
        if self.is_idle(known, l, uri) {
            Some(true)
        } else if elapsed_ms >= timeout_ms {
            Some(false)
        } else {
            None
        }
    }
}

/// A server has not caught up with a document whose text it was just sent, until it
/// publishes diagnostics of it; those of other documents make no difference.
pub proof fn law_sent_texts_are_waited_for(
    caught_up: Set<Seq<char>>,
    known: client::StateModel,
    l: Language,
    uri: Seq<char>,
    other: Seq<char>,
)
    ensures
        !idle(caught_up.remove(uri), known, l, uri),
        other != uri ==> !idle(caught_up.remove(uri).insert(other), known, l, uri),
        known.quiescent ==> idle(caught_up.remove(uri).insert(uri), known, l, uri),
{
}

} // verus!
