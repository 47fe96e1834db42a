//! Questions to the user and calls to UI plugins that wait for an answer:
//! which are still waiting, and what a plugin's reply means. The channels
//! that carry the answers belong to the host, keyed by the same ids.

use vstd::prelude::*;
use vstd::string::StringExecFns;
use crate::text::{chars_eq, chars_of};
use crate::ui_session::Coded;

verus! {

/// A plugin's reply to a call.
#[derive(Clone, Debug, PartialEq, Eq)]
pub struct PluginAnswer {
    pub id: String,
    pub ok: bool,
    pub data: Option<String>,
    pub error: Option<String>,
    pub unimplemented: bool,
}

/// What a plugin call gives.
#[derive(Clone, Debug, PartialEq, Eq)]
pub enum PluginResult {
    /// The reply as JSON text, for the caller to decode.
    Value(String),
    /// The plugin does not implement the method.
    Unimplemented,
}

/// A failed plugin call.
pub const PLUGIN_FAILED: &'static str = "PLUGIN_FAILED";

/// What a reply means: not implemented, a failure, or its data (`null`
/// when it sent none).
pub fn plugin_result(reply: PluginAnswer) -> (r: Result<PluginResult, Coded>)
    ensures
        reply.unimplemented ==> r == Ok::<PluginResult, Coded>(PluginResult::Unimplemented),
        !reply.unimplemented && !reply.ok ==> (r matches Err(c) && c.code@ == PLUGIN_FAILED@ && c.subject is None
            && c.detail is None && c.event_id is None),
        !reply.unimplemented && reply.ok ==> (r matches Ok(PluginResult::Value(v)) && v@ == match reply.data {
            Some(d) => d@,
            None => "null"@,
        }),
{
    if reply.unimplemented {
        return Ok(PluginResult::Unimplemented);
    }
    if !reply.ok {
        return Err(Coded::bare(PLUGIN_FAILED));
    }
    match reply.data {
        Some(d) => Ok(PluginResult::Value(d)),
        None => Ok(PluginResult::Value(String::from_str("null"))),
    }
}

/// The answer a failed or timed-out wait gives.
pub fn failed_answer() -> (r: PluginAnswer)
    ensures
        r.id@ == Seq::<char>::empty(),
        !r.ok,
        r.data is None,
        r.error is None,
        !r.unimplemented,
{
    PluginAnswer { id: String::new(), ok: false, data: None, error: None, unimplemented: false }
}

/// The UI of a silent run: it shows nothing and accepts every prompt.
pub struct SilentUi;

impl SilentUi {
    /// A silent run goes ahead at every prompt.
    pub fn confirm(&self) -> (r: bool)
        ensures
            r,
    {
        true
    }
}

/// The ids of the questions still waiting for an answer.
pub struct PendingIds {
    ids: Vec<String>,
}

impl View for PendingIds {
    type V = Set<Seq<char>>;

    closed spec fn view(&self) -> Set<Seq<char>> {
        Set::new(|k: Seq<char>| exists|i: int| 0 <= i < self.ids@.len() && self.ids@[i]@ == k)
    }
}

impl PendingIds {
    /// Nothing waits.
    pub fn new() -> (r: PendingIds)
        ensures
            r@ == Set::<Seq<char>>::empty(),
    {
        let r = PendingIds { ids: Vec::new() };
        assert(r@ =~= Set::<Seq<char>>::empty());
        r
    }

    fn position(&self, id: &str) -> (r: Option<usize>)
        ensures
            match r {
                Some(i) => i < self.ids@.len() && self.ids@[i as int]@ == id@,
                None => !self@.contains(id@),
            },
    {
        let mut i: usize = 0;
        while i < self.ids.len()
            invariant
                i <= self.ids@.len(),
                forall|k: int| 0 <= k < i ==> self.ids@[k]@ != id@,
            decreases self.ids@.len() - i,
        {
            if chars_eq(&chars_of(self.ids[i].as_str()), &chars_of(id)) {
                return Some(i);
            }
            i += 1;
        }
        None
    }

    /// `id` now waits for an answer (registered before the question is
    /// shown, so an early answer is not lost).
    pub fn register(&mut self, id: String)
        ensures
            final(self)@ == old(self)@.insert(id@),
    {
        match self.position(id.as_str()) {
            Some(_) => {
                assert(self@ =~= old(self)@.insert(id@));
            },
            None => {
                let ghost before = self.ids@;
                self.ids.push(id);
                proof {
                    assert forall|k: Seq<char>| #[trigger] self@.contains(k) == old(self)@.insert(id@).contains(k) by {
                        if old(self)@.contains(k) {
                            let i = choose|i: int| 0 <= i < before.len() && before[i]@ == k;
                            assert(self.ids@[i] == before[i]);
                        }
                        if k == id@ {
                            assert(self.ids@[before.len() as int]@ == k);
                        }
                        if self@.contains(k) {
                            let i = choose|i: int| 0 <= i < self.ids@.len() && self.ids@[i]@ == k;
                            if i < before.len() {
                                assert(self.ids@[i] == before[i]);
                            }
                        }
                    }
                    assert(self@ =~= old(self)@.insert(id@));
                }
            },
        }
    }

    /// Takes an answer for `id`: whether it was waiting. It waits no more,
    /// so a second answer is refused.
    pub fn answer(&mut self, id: &str) -> (r: bool)
        ensures
            r == old(self)@.contains(id@),
            final(self)@ == old(self)@.remove(id@),
    {
        let mut removed = false;
        let mut i: usize = 0;
        let ghost orig = self.ids@;
        while i < self.ids.len()
            invariant
                i <= self.ids@.len(),
                forall|k: Seq<char>|
                    #![trigger old(self)@.contains(k)]
                    old(self)@.contains(k) && k != id@ ==> exists|j: int| 0 <= j < self.ids@.len() && self.ids@[j]@ == k,
                forall|j: int| 0 <= j < self.ids@.len() ==> old(self)@.contains(#[trigger] self.ids@[j]@),
                forall|j: int| 0 <= j < i ==> (#[trigger] self.ids@[j])@ != id@,
                removed ==> old(self)@.contains(id@),
                !removed ==> (old(self)@.contains(id@) <==> exists|j: int| i <= j < self.ids@.len() && self.ids@[j]@ == id@),
            decreases self.ids@.len() - i,
        {
            if chars_eq(&chars_of(self.ids[i].as_str()), &chars_of(id)) {
                let ghost before = self.ids@;
                self.ids.remove(i);
                removed = true;
                proof {
                    assert forall|k: Seq<char>| #![trigger old(self)@.contains(k)]
                        old(self)@.contains(k) && k != id@ implies exists|j: int| 0 <= j < self.ids@.len() && self.ids@[j]@ == k by {
                        let j = choose|j: int| 0 <= j < before.len() && before[j]@ == k;
                        if j < i {
                            assert(self.ids@[j] == before[j]);
                        } else {
                            assert(j != i);
                            assert(self.ids@[j - 1] == before[j]);
                        }
                    }
                    assert forall|j: int| 0 <= j < self.ids@.len() implies old(self)@.contains(#[trigger] self.ids@[j]@) by {
                        if j < i {
                            assert(self.ids@[j] == before[j]);
                        } else {
                            assert(self.ids@[j] == before[j + 1]);
                        }
                    }
                }
            } else {
                i += 1;
            }
        }
        proof {
            assert forall|k: Seq<char>| #[trigger] self@.contains(k) == old(self)@.remove(id@).contains(k) by {
                if self@.contains(k) {
                    let j = choose|j: int| 0 <= j < self.ids@.len() && self.ids@[j]@ == k;
                    assert(old(self)@.contains(self.ids@[j]@));
                    assert(self.ids@[j]@ != id@);
                }
                if old(self)@.contains(k) && k != id@ {
                    let j = choose|j: int| 0 <= j < self.ids@.len() && self.ids@[j]@ == k;
                    assert(self.ids@[j]@ == k);
                }
            }
            assert(self@ =~= old(self)@.remove(id@));
        }
        removed
    }
}

/// Over the waiting ids that `register` and `answer` keep: an answer to a
/// registered question is taken, even when it comes before anyone waits,
/// and a second answer to the same id is refused.
pub proof fn lemma_answer_once(waiting: Set<Seq<char>>, id: Seq<char>)
    ensures
        waiting.insert(id).contains(id),
        !waiting.insert(id).remove(id).contains(id),
{
}

} // verus!
