//! The roster of mounted plugins, as the host announces them.
use vstd::prelude::*;

use crate::text::str_eq;

verus! {

/// One mounted plugin: its name, the substrate it runs on, and what it does.
pub struct PluginInfo {
    pub name: String,
    pub substrate: String,
    pub role: String,
}

/// The abstract value of a [`PluginInfo`].
pub struct PluginV {
    pub name: Seq<char>,
    pub substrate: Seq<char>,
    pub role: Seq<char>,
}

impl View for PluginInfo {
    type V = PluginV;

    open spec fn view(&self) -> PluginV {
        PluginV { name: self.name@, substrate: self.substrate@, role: self.role@ }
    }
}

/// `plugins` without those named `name`, in order.
pub open spec fn without_name(plugins: Seq<PluginV>, name: Seq<char>) -> Seq<PluginV>
    decreases plugins.len(),
{
    if plugins.len() == 0 {
        Seq::empty()
    } else {
        let rest = without_name(plugins.drop_last(), name);
        if plugins.last().name == name {
            rest
        } else {
            rest.push(plugins.last())
        }
    }
}

/// The plugins mounted so far, in mounting order.
pub struct Roster {
    inner: Vec<PluginInfo>,
}

impl Roster {
    /// The mounted plugins, oldest first.
    pub closed spec fn plugins(self) -> Seq<PluginV> {
        self.inner@.map_values(|p: PluginInfo| p@)
    }

    /// An empty roster.
    pub fn new() -> (r: Self)
        ensures
            r.plugins() == Seq::<PluginV>::empty(),
    {
        let r = Roster { inner: Vec::new() };
        assert(r.plugins() =~= Seq::<PluginV>::empty());
        r
    }

    /// Records a mounted plugin.
    pub fn push(&mut self, info: PluginInfo)
        ensures
            final(self).plugins() == old(self).plugins().push(info@),
    {
        self.inner.push(info);
        assert(self.plugins() =~= old(self).plugins().push(info@));
    }

    /// Forgets every plugin named `name`; the others keep their order.
    pub fn remove(&mut self, name: &str)
        ensures
            final(self).plugins() == without_name(old(self).plugins(), name@),
    {
        let ghost before = self.plugins();
        let mut kept: Vec<PluginInfo> = Vec::new();
        let mut i: usize = 0;
        while i < self.inner.len()
            invariant
                i <= self.inner@.len(),
                before == self.inner@.map_values(|p: PluginInfo| p@),
                kept@.map_values(|p: PluginInfo| p@) == without_name(
                    before.subrange(0, i as int),
                    name@,
                ),
            decreases self.inner@.len() - i,
        {
            let p = &self.inner[i];
            proof {
                let s1 = before.subrange(0, i + 1);
                assert(s1.drop_last() =~= before.subrange(0, i as int));
                assert(s1.last() == p@);
            }
            let ghost prev = kept@;
            if !str_eq(p.name.as_str(), name) {
                let q = PluginInfo { name: p.name.clone(), substrate: p.substrate.clone(), role: p.role.clone() };
                kept.push(q);
                assert(kept@.map_values(|q: PluginInfo| q@) =~= prev.map_values(|q: PluginInfo| q@).push(
                    p@,
                ));
            }
            i = i + 1;
        }
        assert(before.subrange(0, before.len() as int) =~= before);
        self.inner = kept;
    }

    /// A copy of every mounted plugin, oldest first.
    pub fn list(&self) -> (r: Vec<PluginInfo>)
        ensures
            r@.map_values(|p: PluginInfo| p@) == self.plugins(),
    {
        let mut out: Vec<PluginInfo> = Vec::new();
        let mut i: usize = 0;
        while i < self.inner.len()
            invariant
                i <= self.inner@.len(),
                out@.len() == i,
                forall|j: int| 0 <= j < i ==> (#[trigger] out@[j])@ == self.inner@[j]@,
            decreases self.inner@.len() - i,
        {
            let p = &self.inner[i];
            out.push(PluginInfo { name: p.name.clone(), substrate: p.substrate.clone(), role: p.role.clone() });
            i = i + 1;
        }
        assert(out@.map_values(|p: PluginInfo| p@) =~= self.plugins());
        out
    }
}

} // verus!
