//! Human approval of installs and patch runs proposed by the model.
//!
//! A proposal waits in a bounded queue until someone approves (the layer is
//! then pushed onto the runtime) or rejects it. Audit records and file cleanup
//! are done by the host around these calls.
use vstd::prelude::*;

use crate::error::Error;
use crate::json::{Json, JsonV};
use crate::patch::Patch;
use crate::text::{decimal, decimal_text, str_eq};

verus! {

/// What the user sees of a waiting proposal.
pub struct PendingInstall {
    pub id: String,
    pub kind: String,
    pub summary: String,
    pub preview: String,
    pub session_id: String,
    pub source_lines: Option<usize>,
}

/// The abstract value of a [`PendingInstall`].
pub struct PendingInstallV {
    pub id: Seq<char>,
    pub kind: Seq<char>,
    pub summary: Seq<char>,
    pub preview: Seq<char>,
    pub session_id: Seq<char>,
    pub source_lines: Option<usize>,
}

impl View for PendingInstall {
    type V = PendingInstallV;

    open spec fn view(&self) -> PendingInstallV {
        PendingInstallV {
            id: self.id@,
            kind: self.kind@,
            summary: self.summary@,
            preview: self.preview@,
            session_id: self.session_id@,
            source_lines: self.source_lines,
        }
    }
}

impl Clone for PendingInstall {
    fn clone(&self) -> (r: Self)
        ensures
            r@ == self@,
    {
        PendingInstall {
            id: self.id.clone(),
            kind: self.kind.clone(),
            summary: self.summary.clone(),
            preview: self.preview.clone(),
            session_id: self.session_id.clone(),
            source_lines: self.source_lines,
        }
    }
}

/// Which kinds of change need approval, and how many may wait at once.
pub struct ApprovalPolicy {
    pub require: Vec<String>,
    pub max_queue: usize,
}

impl ApprovalPolicy {
    /// The kinds that need approval.
    pub open spec fn kinds(self) -> Seq<Seq<char>> {
        self.require@.map_values(|k: String| k@)
    }

    /// Whether `kind` needs approval.
    pub open spec fn needs(self, kind: Seq<char>) -> bool {
        self.kinds().contains(kind)
    }

    /// Reads the policy from a plugin config: `require` (the string items of
    /// the array) and `max_queue` (at least 1); a missing field keeps its default.
    pub fn from_config(config: &Json) -> (r: Self)
        ensures
            r.kinds() == match config@.array_member("require"@) {
                Some(items) => string_items(items),
                None => default_kinds(),
            },
            r.max_queue == match config@.u64_member("max_queue"@) {
                Some(n) => (if n >= 1 { n } else { 1 }) as usize,
                None => 10,
            },
    {
        let mut policy = ApprovalPolicy::default();
        if let Some(items) = config.get_array("require") {
            policy.require = strings_of(items);
        }
        if let Some(max) = config.get_u64("max_queue") {
            policy.max_queue = (if max >= 1 { max } else { 1 }) as usize;
        }
        policy
    }

    /// Whether `kind` needs approval.
    pub fn requires_approval(&self, kind: &str) -> (r: bool)
        ensures
            r == self.needs(kind@),
    {
        let mut i: usize = 0;
        while i < self.require.len()
            invariant
                i <= self.require@.len(),
                forall|j: int| 0 <= j < i ==> self.require@[j]@ != kind@,
            decreases self.require@.len() - i,
        {
            if str_eq(self.require[i].as_str(), kind) {
                assert(self.kinds()[i as int] == kind@);
                return true;
            }
            i = i + 1;
        }
        assert forall|j: int| 0 <= j < self.kinds().len() implies self.kinds()[j] != kind@ by {}
        false
    }
}

/// The kinds that need approval unless configured otherwise.
pub open spec fn default_kinds() -> Seq<Seq<char>> {
    seq!["script"@, "wasm"@, "process"@, "patch"@]
}

/// The texts of the string items of `items`, in order; other items are skipped.
pub open spec fn string_items(items: Seq<JsonV>) -> Seq<Seq<char>>
    decreases items.len(),
{
    if items.len() == 0 {
        Seq::empty()
    } else {
        let rest = string_items(items.drop_last());
        match items.last().text() {
            Some(t) => rest.push(t),
            None => rest,
        }
    }
}

/// The string items of `items`, in order.
pub fn strings_of(items: &Vec<Json>) -> (r: Vec<String>)
    ensures
        r@.map_values(|k: String| k@) == string_items(crate::json::view_items(items@)),
{
    let ghost vs = crate::json::view_items(items@);
    proof {
        crate::json::lemma_view_items(items@);
    }
    let mut out: Vec<String> = Vec::new();
    let mut i: usize = 0;
    while i < items.len()
        invariant
            vs == crate::json::view_items(items@),
            vs.len() == items@.len(),
            i <= items@.len(),
            out@.map_values(|k: String| k@) == string_items(vs.subrange(0, i as int)),
        decreases items@.len() - i,
    {
        proof {
            crate::json::lemma_view_items(items@);
            let s1 = vs.subrange(0, i + 1);
            assert(s1.drop_last() =~= vs.subrange(0, i as int));
            assert(s1.last() == items@[i as int]@);
        }
        let ghost before = out@;
        if let Some(s) = items[i].as_str() {
            out.push(s.to_owned());
            assert(out@.map_values(|k: String| k@) =~= before.map_values(|k: String| k@).push(s@));
        }
        i = i + 1;
    }
    assert(vs.subrange(0, vs.len() as int) =~= vs);
    out
}

impl Default for ApprovalPolicy {
    fn default() -> (r: Self)
        ensures
            r.kinds() == default_kinds(),
            r.max_queue == 10,
    {
        let mut require: Vec<String> = Vec::new();
        require.push("script".to_owned());
        require.push("wasm".to_owned());
        require.push("process".to_owned());
        require.push("patch".to_owned());
        let r = ApprovalPolicy { require, max_queue: 10 };
        assert(r.kinds() =~= default_kinds());
        r
    }
}

impl Clone for ApprovalPolicy {
    fn clone(&self) -> (r: Self)
        ensures
            r.kinds() == self.kinds(),
            r.max_queue == self.max_queue,
    {
        let mut require: Vec<String> = Vec::new();
        let mut i: usize = 0;
        while i < self.require.len()
            invariant
                i <= self.require@.len(),
                require@.len() == i,
                forall|j: int| 0 <= j < i ==> (#[trigger] require@[j])@ == self.require@[j]@,
            decreases self.require@.len() - i,
        {
            require.push(self.require[i].clone());
            i = i + 1;
        }
        let r = ApprovalPolicy { require, max_queue: self.max_queue };
        assert(r.kinds() =~= self.kinds());
        r
    }
}

/// A proposal waiting for a decision: what to show, and what to apply.
pub struct Pending {
    pub install: PendingInstall,
    pub session_id: String,
    pub layer: Vec<Patch>,
    pub cleanup_path: Option<String>,
}

/// The queue of waiting proposals under a policy.
pub struct ApprovalQueue {
    policy: ApprovalPolicy,
    pending: Vec<Pending>,
    workspace: String,
}

/// Whether no two waiting proposals share an id.
pub open spec fn ids_unique(q: Seq<Pending>) -> bool {
    forall|i: int, j: int|
        0 <= i < q.len() && 0 <= j < q.len() && i != j ==> q[i].install.id@ != q[j].install.id@
}

/// Whether some waiting proposal has id `id`.
pub open spec fn has_id(q: Seq<Pending>, id: Seq<char>) -> bool {
    exists|i: int| 0 <= i < q.len() && q[i].install.id@ == id
}

/// Where `find_pending` looks: the first proposal with id `id`, or the oldest
/// one when no id is given.
pub open spec fn pending_index(q: Seq<Pending>, id: Option<Seq<char>>) -> Option<int> {
    match id {
        None => if q.len() > 0 { Some(0) } else { None },
        Some(id) => if has_id(q, id) {
            Some(choose|i: int| 0 <= i < q.len() && q[i].install.id@ == id)
        } else {
            None
        },
    }
}

/// The error when the queue is empty.
pub open spec fn empty_queue_message() -> Seq<char> {
    "没有待审批的安装"@
}

/// The error when no proposal has the requested id.
pub open spec fn not_found_message(id: Seq<char>) -> Seq<char> {
    "找不到待审批项 `"@ + id + "`"@
}

/// The error when the queue is full.
pub open spec fn full_queue_message(max: nat) -> Seq<char> {
    "审批队列已满（最多 "@ + decimal_text(max) + " 条），请先处理现有请求"@
}

/// The error when the id is already waiting.
pub open spec fn duplicate_message(id: Seq<char>) -> Seq<char> {
    "已存在 id 为 `"@ + id + "` 的待审批请求"@
}

/// The answer to a rejection: the id, and the reason when there is a non-empty one.
pub open spec fn rejected_message(id: Seq<char>, reason: Option<Seq<char>>) -> Seq<char> {
    "已拒绝 `"@ + id + "`"@ + match reason {
        Some(r) => if r.len() > 0 { "："@ + r } else { Seq::empty() },
        None => Seq::empty(),
    }
}

impl ApprovalQueue {
    /// The queue's invariant: ids are unique.
    pub closed spec fn wf(self) -> bool {
        ids_unique(self.pending@)
    }

    /// The waiting proposals, oldest first.
    pub closed spec fn queue(self) -> Seq<Pending> {
        self.pending@
    }

    /// The policy in force.
    pub closed spec fn current_policy(self) -> ApprovalPolicy {
        self.policy
    }

    /// The workspace whose audit log records the decisions.
    pub closed spec fn workspace_dir(self) -> Seq<char> {
        self.workspace@
    }

    /// An empty queue under the default policy.
    pub fn new(workspace: String) -> (r: Self)
        ensures
            r.wf(),
            r.queue().len() == 0,
            r.current_policy().kinds() == default_kinds(),
            r.current_policy().max_queue == 10,
            r.workspace_dir() == workspace@,
    {
        ApprovalQueue { policy: ApprovalPolicy::default(), pending: Vec::new(), workspace }
    }

    /// The workspace whose audit log records the decisions.
    pub fn workspace(&self) -> (r: &String)
        ensures
            r@ == self.workspace_dir(),
    {
        &self.workspace
    }

    /// Replaces the policy; waiting proposals stay.
    pub fn set_policy(&mut self, policy: ApprovalPolicy)
        ensures
            final(self).current_policy() == policy,
            final(self).queue() == old(self).queue(),
            final(self).workspace_dir() == old(self).workspace_dir(),
    {
        self.policy = policy;
    }

    /// A copy of the policy in force.
    pub fn policy(&self) -> (r: ApprovalPolicy)
        ensures
            r.kinds() == self.current_policy().kinds(),
            r.max_queue == self.current_policy().max_queue,
    {
        self.policy.clone()
    }

    /// Whether `kind` needs approval under the policy in force.
    pub fn requires_approval(&self, kind: &str) -> (r: bool)
        ensures
            r == self.current_policy().needs(kind@),
    {
        self.policy.requires_approval(kind)
    }

    /// What the user sees of every waiting proposal, oldest first.
    pub fn pending_all(&self) -> (r: Vec<PendingInstall>)
        ensures
            r@.len() == self.queue().len(),
            forall|i: int| 0 <= i < r@.len() ==> (#[trigger] r@[i])@ == self.queue()[i].install@,
    {
        let mut out: Vec<PendingInstall> = Vec::new();
        let mut i: usize = 0;
        while i < self.pending.len()
            invariant
                i <= self.pending@.len(),
                out@.len() == i,
                forall|j: int| 0 <= j < i ==> (#[trigger] out@[j])@ == self.pending@[j].install@,
            decreases self.pending@.len() - i,
        {
            out.push(self.pending[i].install.clone());
            i = i + 1;
        }
        out
    }

    /// The oldest waiting proposal.
    pub fn pending(&self) -> (r: Option<PendingInstall>)
        ensures
            match r {
                Some(p) => self.queue().len() > 0 && p@ == self.queue()[0].install@,
                None => self.queue().len() == 0,
            },
    {
        if self.pending.len() == 0 {
            None
        } else {
            Some(self.pending[0].install.clone())
        }
    }

    /// Queues a proposal. Fails when the queue already holds `max_queue`
    /// proposals, or one with the same id; otherwise the proposal is appended.
    #[verifier::loop_isolation(false)]
    pub fn propose_install(
        &mut self,
        session_id: String,
        id: String,
        kind: String,
        summary: String,
        preview: String,
        source_lines: Option<usize>,
        layer: Vec<Patch>,
        cleanup_path: Option<String>,
    ) -> (r: Result<PendingInstall, Error>)
        requires
            old(self).wf(),
        ensures
            final(self).wf(),
            final(self).current_policy() == old(self).current_policy(),
            final(self).workspace_dir() == old(self).workspace_dir(),
            r is Ok <==> old(self).queue().len() < old(self).current_policy().max_queue && !has_id(
                old(self).queue(),
                id@,
            ),
            match r {
                Ok(install) => {
                    &&& install@ == (PendingInstallV {
                        id: id@,
                        kind: kind@,
                        summary: summary@,
                        preview: preview@,
                        session_id: session_id@,
                        source_lines,
                    })
                    &&& final(self).queue().len() == old(self).queue().len() + 1
                    &&& final(self).queue().drop_last() == old(self).queue()
                    &&& final(self).queue().last().install@ == install@
                    &&& final(self).queue().last().session_id@ == session_id@
                    &&& final(self).queue().last().layer == layer
                    &&& final(self).queue().last().cleanup_path == cleanup_path
                },
                Err(e) => {
                    &&& final(self).queue() == old(self).queue()
                    &&& e is Component
                    &&& if old(self).queue().len() >= old(self).current_policy().max_queue {
                        e.text() == full_queue_message(old(self).current_policy().max_queue as nat)
                    } else {
                        e.text() == duplicate_message(id@)
                    }
                },
            },
    {
        let max = self.policy.max_queue;
        if self.pending.len() >= max {
            let mut text = "审批队列已满（最多 ".to_owned();
            text.append(decimal(max as u64).as_str());
            text.append(" 条），请先处理现有请求");
            return Err(Error::Component(text));
        }
        let mut i: usize = 0;
        while i < self.pending.len()
            invariant
                i <= self.pending@.len(),
                forall|j: int| 0 <= j < i ==> self.pending@[j].install.id@ != id@,
            decreases self.pending@.len() - i,
        {
            if str_eq(self.pending[i].install.id.as_str(), id.as_str()) {
                let mut text = "已存在 id 为 `".to_owned();
                text.append(id.as_str());
                text.append("` 的待审批请求");
                return Err(Error::Component(text));
            }
            i = i + 1;
        }
        let install = PendingInstall {
            id,
            kind,
            summary,
            preview,
            session_id: session_id.clone(),
            source_lines,
        };
        let shown = install.clone();
        self.pending.push(Pending { install, session_id, layer, cleanup_path });
        assert(self.pending@.drop_last() =~= old(self).pending@);
        Ok(shown)
    }

    /// Where a decision applies: the proposal with id `id`, or the oldest one
    /// when no id is given.
    #[verifier::loop_isolation(false)]
    pub fn find_pending(&self, id: Option<&str>) -> (r: Result<usize, Error>)
        requires
            self.wf(),
        ensures
            self.queue().len() == 0 ==> r is Err && r->Err_0 is Component && r->Err_0.text()
                == empty_queue_message(),
            self.queue().len() > 0 ==> match id {
                None => r == Ok::<usize, Error>(0),
                Some(k) => if has_id(self.queue(), k@) {
                    r is Ok && r->Ok_0 < self.queue().len() && self.queue()[r->Ok_0 as int].install.id@
                        == k@
                } else {
                    r is Err && r->Err_0 is Component && r->Err_0.text() == not_found_message(k@)
                },
            },
    {
        if self.pending.len() == 0 {
            return Err(Error::Component("没有待审批的安装".to_owned()));
        }
        match id {
            None => Ok(0),
            Some(k) => {
                let mut i: usize = 0;
                while i < self.pending.len()
                    invariant
                        i <= self.pending@.len(),
                        forall|j: int| 0 <= j < i ==> self.pending@[j].install.id@ != k@,
                    decreases self.pending@.len() - i,
                {
                    if str_eq(self.pending[i].install.id.as_str(), k) {
                        return Ok(i);
                    }
                    i = i + 1;
                }
                let mut text = "找不到待审批项 `".to_owned();
                text.append(k);
                text.append("`");
                Err(Error::Component(text))
            },
        }
    }

    /// Takes the proposal a decision applies to out of the queue (see
    /// `find_pending`); the host then applies its layer.
    pub fn approve(&mut self, id: Option<&str>) -> (r: Result<Pending, Error>)
        requires
            old(self).wf(),
        ensures
            final(self).wf(),
            final(self).current_policy() == old(self).current_policy(),
            final(self).workspace_dir() == old(self).workspace_dir(),
            taken(old(self).queue(), final(self).queue(), id, r),
    {
        self.take(id)
    }

    /// Takes the proposal a rejection applies to out of the queue (see
    /// `find_pending`) and says what was rejected; the host then deletes its
    /// generated file and records the decision.
    pub fn reject(&mut self, id: Option<&str>, reason: Option<&str>) -> (r: Result<(Pending, String), Error>)
        requires
            old(self).wf(),
        ensures
            final(self).wf(),
            final(self).current_policy() == old(self).current_policy(),
            final(self).workspace_dir() == old(self).workspace_dir(),
            taken(
                old(self).queue(),
                final(self).queue(),
                id,
                match r {
                    Ok(pair) => Ok(pair.0),
                    Err(e) => Err(e),
                },
            ),
            r is Ok ==> r->Ok_0.1@ == rejected_message(
                r->Ok_0.0.install.id@,
                match reason {
                    Some(t) => Some(t@),
                    None => None,
                },
            ),
    {
        match self.take(id) {
            Ok(pending) => {
                let mut text = "已拒绝 `".to_owned();
                text.append(pending.install.id.as_str());
                text.append("`");
                if let Some(t) = reason {
                    if !t.is_empty() {
                        text.append("：");
                        text.append(t);
                    }
                }
                proof {
                    let rs = match reason { Some(t) => Some(t@), None => None };
                    assert(text@ =~= rejected_message(pending.install.id@, rs));
                }
                Ok((pending, text))
            },
            Err(e) => Err(e),
        }
    }

    fn take(&mut self, id: Option<&str>) -> (r: Result<Pending, Error>)
        requires
            old(self).wf(),
        ensures
            final(self).wf(),
            final(self).current_policy() == old(self).current_policy(),
            final(self).workspace_dir() == old(self).workspace_dir(),
            taken(old(self).queue(), final(self).queue(), id, r),
    {
        match self.find_pending(id) {
            Ok(index) => {
                let pending = self.pending.remove(index);
                proof {
                    let q = old(self).pending@;
                    let q2 = self.pending@;
                    assert forall|i: int, j: int|
                        0 <= i < q2.len() && 0 <= j < q2.len() && i != j implies q2[i].install.id@
                        != q2[j].install.id@ by {
                        let a = if i < index { i } else { i + 1 };
                        let b = if j < index { j } else { j + 1 };
                        assert(q2[i] == q[a]);
                        assert(q2[j] == q[b]);
                    }
                }
                Ok(pending)
            },
            Err(e) => Err(e),
        }
    }
}

/// How a decision changes the queue: on success the chosen proposal (see
/// `find_pending`) leaves it and is returned; on failure nothing changes and
/// the error says why.
pub open spec fn taken(
    before: Seq<Pending>,
    after: Seq<Pending>,
    id: Option<&str>,
    r: Result<Pending, Error>,
) -> bool {
    match r {
        Ok(p) => exists|i: int|
            0 <= i < before.len() && before[i] == p && after == before.remove(i) && match id {
                None => i == 0,
                Some(k) => p.install.id@ == k@,
            },
        Err(e) => {
            &&& after == before
            &&& e is Component
            &&& if before.len() == 0 {
                e.text() == empty_queue_message()
            } else {
                &&& id is Some
                &&& !has_id(before, id->0@)
                &&& e.text() == not_found_message(id->0@)
            }
        },
    }
}

} // verus!
