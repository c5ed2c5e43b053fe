//! Renames: a language server's edits, applied to every open buffer they touch.

use vstd::prelude::*;

use super::{EditBody, EditorCore};
use crate::error::EditorError;
use crate::lsp::{TextEdit, WorkspaceEdit};
use crate::order;
use crate::order::{chars_le, sort, Ranked};
use crate::protocol::{RenameApplied, RenameResult};
use crate::runtime;
use crate::scan;
use crate::text::{join2, same, to_chars};
use crate::tx;

pub mod laws;

verus! {

/// Start and end of an edit, compared line first.
pub open spec fn not_before(a: TextEdit, b: TextEdit) -> bool {
    let (p, q) = (a.range.start, b.range.start);
    let (y, z) = (a.range.end, b.range.end);
    if p.line != q.line {
        p.line > q.line
    } else if p.character != q.character {
        p.character > q.character
    } else if y.line != z.line {
        y.line > z.line
    } else {
        y.character >= z.character
    }
}

impl Ranked for TextEdit {
    /// Edits nearer to the end of the text come first.
    open spec fn rank_le(self, other: TextEdit) -> bool {
        not_before(self, other)
    }

    fn ranks_before(&self, other: &TextEdit) -> bool {
        let (p, q) = (self.range.start, other.range.start);
        let (y, z) = (self.range.end, other.range.end);
        if p.line != q.line {
            p.line > q.line
        } else if p.character != q.character {
            p.character > q.character
        } else if y.line != z.line {
            y.line > z.line
        } else {
            y.character >= z.character
        }
    }
}

impl Ranked for RenameApplied {
    open spec fn rank_le(self, other: RenameApplied) -> bool {
        self.buffer_id <= other.buffer_id
    }

    fn ranks_before(&self, other: &RenameApplied) -> bool {
        self.buffer_id <= other.buffer_id
    }
}

impl Ranked for String {
    open spec fn rank_le(self, other: String) -> bool {
        order::text_le(self@, other@)
    }

    fn ranks_before(&self, other: &String) -> bool {
        chars_le(&to_chars(self), &to_chars(other))
    }
}

/// The last entry with an address.
pub open spec fn addressed(entries: Seq<runtime::EntryModel>, uri: Seq<char>) -> Option<int>
    decreases entries.len(),
{
    if entries.len() == 0 {
        None
    } else if entries.last().uri == Some(uri) {
        Some(entries.len() - 1)
    } else {
        addressed(entries.drop_last(), uri)
    }
}

/// What was done to one buffer: its id, its address, how many edits, its new
/// version.
pub struct AppliedModel {
    pub buffer_id: u64,
    pub uri: Seq<char>,
    pub edits: nat,
    pub new_version: u64,
}

impl View for RenameApplied {
    type V = AppliedModel;

    open spec fn view(&self) -> AppliedModel {
        AppliedModel {
            buffer_id: self.buffer_id,
            uri: self.uri@,
            edits: self.edits as nat,
            new_version: self.new_version,
        }
    }
}

pub open spec fn applied_views(v: Seq<RenameApplied>) -> Seq<AppliedModel> {
    Seq::new(v.len(), |i: int| v[i]@)
}

/// How far a rename has got.
#[verifier::ext_equal]
pub struct RenameState {
    pub core: runtime::CoreModel,
    pub applied: Seq<AppliedModel>,
    pub places: Seq<int>,
    pub skipped: Seq<Seq<char>>,
    pub failed: Option<EditorError>,
}

/// The intent of a rename.
pub open spec fn rename_intent(name: Seq<char>) -> Seq<char> {
    "edit.rename_symbol -> "@ + name
}

/// The state after the edits of one document: they are applied from the end of
/// the text to its start, in a transaction of their own; a document that is not
/// open is skipped.
pub open spec fn document_renamed(
    st: RenameState,
    uri: Seq<char>,
    edits: Seq<TextEdit>,
    name: Seq<char>,
) -> RenameState {
    match addressed(st.core.entries, uri) {
        None => RenameState { skipped: st.skipped.push(uri), ..st },
        Some(k) => {
            let (after, failed) = runtime::edit_outcome(
                st.core,
                k,
                rename_intent(name),
                runtime::BodyModel::Texts { edits: order::stable_sorted(edits) },
            );
            match failed {
                Some(e) => RenameState { core: after, failed: Some(e), ..st },
                None => RenameState {
                    core: after,
                    applied: st.applied.push(
                        AppliedModel {
                            buffer_id: after.entries[k].id,
                            uri,
                            edits: edits.len(),
                            new_version: after.entries[k].buffer.version,
                        },
                    ),
                    places: st.places.push(k),
                    ..st
                },
            }
        },
    }
}

/// The state after the first `n` documents, up to the first failure.
pub open spec fn renamed_upto(
    m: runtime::CoreModel,
    changes: Seq<(String, Vec<TextEdit>)>,
    name: Seq<char>,
    n: int,
) -> RenameState
    decreases n,
{
    if n <= 0 {
        RenameState {
            core: m,
            applied: Seq::empty(),
            places: Seq::empty(),
            skipped: Seq::empty(),
            failed: None,
        }
    } else {
        let before = renamed_upto(m, changes, name, n - 1);
        if before.failed is Some {
            before
        } else {
            document_renamed(before, changes[n - 1].0@, changes[n - 1].1@, name)
        }
    }
}

/// The runtime after the first `n` of the entries `places` were settled: their
/// syntax was brought up to their text, and their servers were told.
pub open spec fn all_settled(m: runtime::CoreModel, places: Seq<int>, n: int) -> runtime::CoreModel
    decreases n,
{
    if n <= 0 {
        m
    } else {
        runtime::settled(all_settled(m, places, n - 1), places[n - 1])
    }
}

/// The state after all documents.
pub open spec fn renamed(
    m: runtime::CoreModel,
    changes: Seq<(String, Vec<TextEdit>)>,
    name: Seq<char>,
) -> RenameState {
    renamed_upto(m, changes, name, changes.len() as int)
}

proof fn lemma_failed_stays(
    m: runtime::CoreModel,
    changes: Seq<(String, Vec<TextEdit>)>,
    name: Seq<char>,
    n: int,
    k: int,
)
    requires
        0 <= n <= k,
        renamed_upto(m, changes, name, n).failed is Some,
    ensures
        renamed_upto(m, changes, name, k) == renamed_upto(m, changes, name, n),
    decreases k - n,
{
    if n < k {
        lemma_failed_stays(m, changes, name, n, k - 1);
    }
}

pub proof fn lemma_addressed(entries: Seq<runtime::EntryModel>, uri: Seq<char>)
    ensures
        match addressed(entries, uri) {
            Some(k) => 0 <= k < entries.len() && entries[k].uri == Some(uri),
            None => forall|j: int| 0 <= j < entries.len() ==> (#[trigger] entries[j]).uri != Some(uri),
        },
    decreases entries.len(),
{
    if entries.len() > 0 && entries.last().uri != Some(uri) {
        let rest = entries.drop_last();
        lemma_addressed(rest, uri);
        if addressed(rest, uri) is None {
            assert forall|j: int| 0 <= j < entries.len() implies (#[trigger] entries[j]).uri != Some(
                uri,
            ) by {
                if j < rest.len() {
                    assert(rest[j].uri != Some(uri));
                }
            }
        }
    }
}

pub(crate) fn copy_text_edits(edits: &Vec<TextEdit>) -> (r: Vec<TextEdit>)
    ensures
        r@ == edits@,
{
    let mut r: Vec<TextEdit> = Vec::new();
    let mut i: usize = 0;
    while i < edits.len()
        invariant
            i <= edits@.len(),
            r@ == edits@.take(i as int),
        decreases edits@.len() - i,
    {
        r.push(TextEdit { range: edits[i].range, new_text: edits[i].new_text.clone() });
        i += 1;
        assert(edits@.take(i as int) =~= edits@.take(i - 1).push(edits@[i - 1]));
    }
    assert(edits@.take(i as int) =~= edits@);
    r
}

/// What a rename reports: the buffers it changed in the order of their ids, and
/// the addresses it skipped in alphabetical order.
pub open spec fn reports(r: RenameResult, st: RenameState) -> bool {
    &&& exists|found: Seq<RenameApplied>|
        #![trigger applied_views(found)]
        applied_views(found) == st.applied && r.applied@ == order::stable_sorted(found)
    &&& exists|found: Seq<String>|
        #![trigger scan::string_views(found)]
        scan::string_views(found) == st.skipped && r.skipped_files@ == order::stable_sorted(found)
}

impl EditorCore {
    fn find_address(&self, uri: &str) -> (r: Option<usize>)
        ensures
            match r {
                Some(k) => addressed(self@.entries, uri@) == Some(k as int) && k
                    < self@.entries.len(),
                None => addressed(self@.entries, uri@) is None,
            },
    {
        let mut i: usize = self.buffers.len();
        assert(self@.entries.take(i as int) =~= self@.entries);
        while i > 0
            invariant
                i <= self.buffers@.len() == self@.entries.len(),
                addressed(self@.entries, uri@) == addressed(self@.entries.take(i as int), uri@),
            decreases i,
        {
            assert(self@.entries.take(i as int).drop_last() =~= self@.entries.take(i - 1));
            assert(self@.entries[i - 1] == self.buffers@[i - 1]@);
            if let Some(u) = &self.buffers[i - 1].uri {
                if same(u, uri) {
                    return Some(i - 1);
                }
            }
            i -= 1;
        }
        None
    }

    /// Applies the edits that a language server answered a rename with to the
    /// buffers that are open. The first document whose edits do not fit ends it.
    pub fn apply_rename(&mut self, new_name: &str, edit: &WorkspaceEdit) -> (r: Result<
        RenameResult,
        EditorError,
    >)
        requires
            runtime::well_formed(old(self)@),
            runtime::room(old(self)@, 2 * edit.changes@.len() as int),
        ensures
            runtime::well_formed(final(self)@),
            exists|at: tx::Moment|
                tx::proper(at) && ({
                    let st = renamed(
                        #[trigger] runtime::clocked(old(self)@, at),
                        edit.changes@,
                        new_name@,
                    );
                    match st.failed {
                        Some(e) => r == Err::<RenameResult, _>(e) && final(self)@ == st.core,
                        None => {
                            &&& r is Ok && reports(r->Ok_0, st)
                            &&& final(self)@ == all_settled(
                                st.core,
                                st.places,
                                st.places.len() as int,
                            )
                        },
                    }
                }),
    {
        self.tick();
        self.rename_documents(new_name, edit)
    }

    /// The same, with the moment that the clock was last read at.
    pub(crate) fn rename_documents(&mut self, new_name: &str, edit: &WorkspaceEdit) -> (r: Result<
        RenameResult,
        EditorError,
    >)
        requires
            runtime::well_formed(old(self)@),
            runtime::room(old(self)@, 2 * edit.changes@.len() as int),
        ensures
            runtime::well_formed(final(self)@),
            ({
                let st = renamed(old(self)@, edit.changes@, new_name@);
                match st.failed {
                    Some(e) => r == Err::<RenameResult, _>(e) && final(self)@ == st.core,
                    None => {
                        &&& r is Ok && reports(r->Ok_0, st)
                        &&& final(self)@ == all_settled(
                            st.core,
                            st.places,
                            st.places.len() as int,
                        )
                    },
                }
            }),
    {
        let ghost m = self@;
        let ghost changes = edit.changes@;
        let ghost total = changes.len() as int;
        let mut applied: Vec<RenameApplied> = Vec::new();
        let mut places: Vec<usize> = Vec::new();
        let mut skipped: Vec<String> = Vec::new();
        let mut i: usize = 0;
        proof {
            let st = renamed_upto(m, changes, new_name@, 0);
            assert(applied_views(applied@) =~= st.applied);
            assert(place_ints(places@) =~= st.places);
            assert(scan::string_views(skipped@) =~= st.skipped);
        }
        while i < edit.changes.len()
            invariant
                m == old(self)@,
                changes == edit.changes@,
                total == changes.len(),
                i <= total,
                runtime::well_formed(self@),
                runtime::room(self@, 2 * total - i),
                self@.entries.len() == m.entries.len(),
                places@.len() <= i,
                forall|j: int| 0 <= j < places@.len() ==> #[trigger] places@[j] < m.entries.len(),
                renamed_upto(m, changes, new_name@, i as int) == (RenameState {
                    core: self@,
                    applied: applied_views(applied@),
                    places: place_ints(places@),
                    skipped: scan::string_views(skipped@),
                    failed: None,
                }),
            decreases total - i,
        {
            let (uri, edits) = (&edit.changes[i].0, &edit.changes[i].1);
            let ghost before = self@;
            match self.find_address(uri) {
                None => {
                    let ghost names = scan::string_views(skipped@);
                    skipped.push(uri.clone());
                    assert(scan::string_views(skipped@) =~= names.push(uri@));
                },
                Some(k) => {
                    let sorted = sort(copy_text_edits(edits));
                    let intent = join2("edit.rename_symbol -> ", new_name);
                    let body = EditBody::Texts { edits: &sorted };
                    proof {
                        runtime::lemma_edit_outcome(
                            before,
                            k as int,
                            intent@,
                            body@,
                            2 * total - i,
                        );
                    }
                    if let Err(e) = self.with_auto_tx_on(k, intent, &body) {
                        proof {
                            lemma_failed_stays(m, changes, new_name@, i + 1, total);
                        }
                        return Err(e);
                    }
                    let ghost done = applied_views(applied@);
                    let ghost touched = place_ints(places@);
                    assert(self@.entries[k as int] == self.buffers@[k as int]@);
                    applied.push(
                        RenameApplied {
                            buffer_id: self.buffers[k].id,
                            uri: uri.clone(),
                            edits: edits.len(),
                            new_version: self.buffers[k].buffer.version(),
                        },
                    );
                    places.push(k);
                    assert(applied_views(applied@) =~= done.push(applied@.last()@));
                    assert(place_ints(places@) =~= touched.push(k as int));
                },
            }
            i += 1;
        }
        let ghost core = self@;
        let ghost ps = place_ints(places@);
        let mut n: usize = 0;
        while n < places.len()
            invariant
                m == old(self)@,
                ps == place_ints(places@),
                n <= places@.len() <= total,
                core.entries.len() == m.entries.len(),
                self@.entries.len() == m.entries.len(),
                forall|j: int| 0 <= j < places@.len() ==> #[trigger] places@[j] < m.entries.len(),
                runtime::well_formed(self@),
                runtime::room(self@, total - n),
                self@ == all_settled(core, ps, n as int),
            decreases places@.len() - n,
        {
            proof {
                assert(places@[n as int] < m.entries.len());
                assert(ps[n as int] == places@[n as int]);
                runtime::lemma_settled(self@, ps[n as int], total - n);
            }
            self.settle(places[n]);
            n += 1;
        }
        let ghost found = applied@;
        let ghost names = skipped@;
        let result = RenameResult { applied: sort(applied), skipped_files: sort(skipped) };
        proof {
            let st = renamed(m, changes, new_name@);
            assert(applied_views(found) == st.applied);
            assert(scan::string_views(names) == st.skipped);
        }
        Ok(result)
    }
}

pub open spec fn place_ints(v: Seq<usize>) -> Seq<int> {
    Seq::new(v.len(), |i: int| v[i] as int)
}

} // verus!
