//! The bookkeeping of poster loads: which clips' posters are requested and
//! not back yet. Reading and decoding the images is done by the caller's
//! workers.
use vstd::prelude::*;
use crate::fmt::strings_view;
use crate::media_probe::no_duplicates;
use crate::model::contains_id;
use crate::text::{string_of, trim, trim_str};

verus! {

/// The clips whose posters are being loaded, each once.
pub struct PosterAssetLoader {
    pending: Vec<String>,
}

impl View for PosterAssetLoader {
    type V = Seq<Seq<char>>;

    closed spec fn view(&self) -> Seq<Seq<char>> {
        strings_view(self.pending@)
    }
}

/// A load to hand to a worker: the clip and the poster's path, trimmed.
#[derive(Debug, Clone, PartialEq, Eq)]
pub struct PosterLoadRequest {
    pub clip_id: String,
    pub path: String,
}

impl PosterAssetLoader {
    /// No clip is pending twice.
    pub open spec fn wf(&self) -> bool {
        no_duplicates(self@)
    }

    pub fn new() -> (r: Self)
        ensures
            r.wf(),
            r@ == Seq::<Seq<char>>::empty(),
    {
        let r = PosterAssetLoader { pending: Vec::new() };
        assert(r@ =~= Seq::<Seq<char>>::empty());
        r
    }

    /// Asks for the poster of a clip: refused when the id or the path is
    /// blank or the clip's poster is already pending; else the clip becomes
    /// pending and the load to run is returned.
    pub fn request(&mut self, clip_id: &str, path: &str) -> (r: Option<PosterLoadRequest>)
        requires
            old(self).wf(),
        ensures
            final(self).wf(),
            ({
                let id = trim(clip_id@);
                let p = trim(path@);
                if id.len() == 0 || p.len() == 0 || old(self)@.contains(id) {
                    r is None && final(self)@ == old(self)@
                } else {
                    r matches Some(q) && q.clip_id@ == id && q.path@ == p && final(self)@
                        == old(self)@.push(id)
                }
            }),
    {
        let id = trim_str(clip_id);
        let p = trim_str(path);
        if id.len() == 0 || p.len() == 0 {
            return None;
        }
        let id = string_of(&id);
        if contains_id(&self.pending, id.as_str()) {
            return None;
        }
        let ghost before = self@;
        self.pending.push(id.clone());
        assert(self@ =~= before.push(id@));
        assert forall|i: int, j: int| 0 <= i < j < self@.len() implies self@[i] != self@[j] by {
            if j == before.len() {
                assert(before[i] == self@[i]);
            }
        }
        Some(PosterLoadRequest { clip_id: id, path: string_of(&p) })
    }

    /// A load came back (decoded or failed): its clip is no longer pending.
    pub fn finish(&mut self, clip_id: &str)
        requires
            old(self).wf(),
        ensures
            final(self).wf(),
            !final(self)@.contains(clip_id@),
            forall|x: Seq<char>|
                x != clip_id@ ==> (#[trigger] final(self)@.contains(x) <==> old(self)@.contains(x)),
    {
        let ghost before = self@;
        let mut i: usize = 0;
        while i < self.pending.len()
            invariant
                i <= self.pending@.len(),
                forall|k: int| 0 <= k < i ==> self@[k] != clip_id@,
                self@ == before,
                before == old(self)@,
                no_duplicates(before),
            decreases self.pending@.len() - i,
        {
            if crate::text::str_eq(self.pending[i].as_str(), clip_id) {
                let ghost at = i as int;
                self.pending.remove(i);
                assert(self@ =~= before.remove(at));
                assert forall|a: int, b: int| 0 <= a < b < self@.len() implies self@[a] != self@[b] by {
                    let a0 = if a < at { a } else { a + 1 };
                    let b0 = if b < at { b } else { b + 1 };
                    assert(self@[a] == before[a0] && self@[b] == before[b0]);
                }
                assert forall|x: Seq<char>| x != clip_id@ implies (#[trigger] self@.contains(x)
                    <==> before.contains(x)) by {
                    if before.contains(x) {
                        let k = choose|k: int| 0 <= k < before.len() && before[k] == x;
                        assert(k != at);
                        let k2 = if k < at { k } else { k - 1 };
                        assert(self@[k2] == x);
                    }
                    if self@.contains(x) {
                        let k = choose|k: int| 0 <= k < self@.len() && self@[k] == x;
                        let k0 = if k < at { k } else { k + 1 };
                        assert(before[k0] == x);
                    }
                }
                assert(!self@.contains(clip_id@)) by {
                    if self@.contains(clip_id@) {
                        let k = choose|k: int| 0 <= k < self@.len() && self@[k] == clip_id@;
                        let k0 = if k < at { k } else { k + 1 };
                        assert(before[k0] == clip_id@ && before[at] == clip_id@ && k0 != at);
                    }
                }
                return;
            }
            i = i + 1;
        }
    }

    pub fn is_pending(&self, clip_id: &str) -> (r: bool)
        ensures
            r == self@.contains(clip_id@),
    {
        contains_id(&self.pending, clip_id)
    }

    pub fn has_pending(&self) -> (r: bool)
        ensures
            r == (self@.len() > 0),
    {
        self.pending.len() > 0
    }
}

} // verus!
