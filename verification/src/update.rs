//! A bounded history of document updates.

use vstd::prelude::*;

verus! {

/// What one re-parse changed in a document.
#[derive(Debug)]
pub struct OrgUpdateInfo {
    pub document_id: String,
    pub updated_headlines: Vec<String>,
    pub deleted_headlines: Vec<String>,
    pub new_headlines: Vec<String>,
    pub timestamp: String,
}

/// The mathematical image of an update record.
pub struct UpdateV {
    pub document_id: Seq<char>,
    pub updated_headlines: Seq<Seq<char>>,
    pub deleted_headlines: Seq<Seq<char>>,
    pub new_headlines: Seq<Seq<char>>,
    pub timestamp: Seq<char>,
}

impl View for OrgUpdateInfo {
    type V = UpdateV;

    open spec fn view(&self) -> UpdateV {
        UpdateV {
            document_id: self.document_id@,
            updated_headlines: self.updated_headlines.deep_view(),
            deleted_headlines: self.deleted_headlines.deep_view(),
            new_headlines: self.new_headlines.deep_view(),
            timestamp: self.timestamp@,
        }
    }
}

impl DeepView for OrgUpdateInfo {
    type V = UpdateV;

    open spec fn deep_view(&self) -> UpdateV {
        self.view()
    }
}

/// The tracker: the most recent updates, oldest first, at most `max_history`
/// of them.
#[derive(Debug)]
pub struct UpdateTracker {
    pub updates: Vec<OrgUpdateInfo>,
    pub max_history: usize,
}

/// The updates of one document, in order.
pub open spec fn updates_for(us: Seq<UpdateV>, id: Seq<char>) -> Seq<UpdateV>
    decreases us.len(),
{
    if us.len() == 0 {
        Seq::empty()
    } else {
        let rest = updates_for(us.drop_first(), id);
        if us[0].document_id == id {
            seq![us[0]] + rest
        } else {
            rest
        }
    }
}

impl UpdateTracker {
    /// A tracker that keeps at most `max_history` updates.
    pub fn new(max_history: usize) -> (r: UpdateTracker)
        ensures
            r.updates.deep_view() == Seq::<UpdateV>::empty(),
            r.max_history == max_history,
    {
        let r = UpdateTracker { updates: Vec::new(), max_history };
        assert(r.updates.deep_view() =~= Seq::<UpdateV>::empty());
        r
    }

    /// Record an update; when the history then exceeds its bound, the oldest
    /// record falls out.
    pub fn add_update(&mut self, update: OrgUpdateInfo)
        ensures
            final(self).max_history == old(self).max_history,
            final(self).updates.deep_view() == {
                let pushed = old(self).updates.deep_view().push(update@);
                if pushed.len() > old(self).max_history {
                    pushed.drop_first()
                } else {
                    pushed
                }
            },
    {
        let ghost us0 = self.updates.deep_view();
        let ghost max0 = self.max_history;
        self.updates.push(update);
        proof {
            assert(self.updates.deep_view() =~= us0.push(update@));
        }
        if self.updates.len() > self.max_history {
            self.updates.remove(0);
            proof {
                assert(self.updates.deep_view() =~= us0.push(update@).drop_first());
            }
        }
    }

    /// The recorded updates for one document, in order.
    pub fn get_updates_for_document(&self, document_id: &str) -> (r: Vec<&OrgUpdateInfo>)
        ensures
            r.deep_view() == updates_for(self.updates.deep_view(), document_id@),
    {
        let ghost us = self.updates.deep_view();
        let n = self.updates.len();
        let mut out: Vec<&OrgUpdateInfo> = Vec::new();
        let mut i: usize = 0;
        proof {
            assert(us.skip(0) =~= us);
        }
        while i < n
            invariant
                n == self.updates@.len(),
                us == self.updates.deep_view(),
                0 <= i <= n,
                updates_for(us, document_id@) =~= out.deep_view() + updates_for(
                    us.skip(i as int),
                    document_id@,
                ),
            decreases n - i,
        {
            proof {
                assert(us.skip(i as int)[0] == us[i as int]);
                assert(us.skip(i as int).drop_first() =~= us.skip(i + 1));
            }
            if crate::strutil::str_eq(self.updates[i].document_id.as_str(), document_id) {
                let ghost before = out.deep_view();
                out.push(&self.updates[i]);
                assert(out.deep_view() =~= before + seq![us[i as int]]);
            }
            proof {
                assert(updates_for(us, document_id@) =~= out.deep_view() + updates_for(
                    us.skip(i + 1),
                    document_id@,
                ));
            }
            i = i + 1;
        }
        proof {
            assert(updates_for(us.skip(n as int), document_id@) =~= Seq::<UpdateV>::empty());
            assert(out.deep_view() =~= updates_for(us, document_id@));
        }
        out
    }
}

} // verus!
