//! Configuration: the `~/.ssh/config` parser, snippets, and the merge of
//! manual hosts with imported ones.

pub mod snippets;
pub mod ssh_config;

use vstd::prelude::*;

use crate::ssh::client::{hosts_view, Host, HostView};

verus! {

/// A manual host claims the alias `n`: it has that name, or it renames the
/// `~/.ssh/config` entry of that alias.
pub open spec fn claimed(manual: Seq<HostView>, n: Seq<char>) -> bool {
    exists|i: int|
        0 <= i < manual.len() && ((#[trigger] manual[i]).name == n || manual[i].original_ssh_host
            == Some(n))
}

/// The imported hosts whose alias no manual host claims, in order.
pub open spec fn unclaimed(manual: Seq<HostView>, imported: Seq<HostView>) -> Seq<HostView>
    decreases imported.len(),
{
    if imported.len() == 0 {
        Seq::empty()
    } else {
        let prev = unclaimed(manual, imported.drop_last());
        if claimed(manual, imported.last().name) {
            prev
        } else {
            prev.push(imported.last())
        }
    }
}

/// Whether some host of `manual` claims the alias `name`.
fn is_claimed(manual: &Vec<Host>, name: &String) -> (r: bool)
    ensures
        r == claimed(hosts_view(manual@), name@),
{
    let ghost mv = hosts_view(manual@);
    let mut i: usize = 0;
    while i < manual.len()
        invariant
            i <= manual.len(),
            mv == hosts_view(manual@),
            forall|j: int|
                0 <= j < i ==> !((#[trigger] mv[j]).name == name@ || mv[j].original_ssh_host
                    == Some(name@)),
        decreases manual.len() - i,
    {
        let h = &manual[i];
        let renamed = match &h.original_ssh_host {
            Some(o) => *o == *name,
            None => false,
        };
        if h.name == *name || renamed {
            assert(mv[i as int].name == name@ || mv[i as int].original_ssh_host == Some(name@));
            return true;
        }
        i = i + 1;
    }
    false
}

/// All hosts, given the manual hosts (from `hosts.toml`) and the hosts
/// imported from `~/.ssh/config`: the manual hosts first, unchanged and in
/// order, then each imported host whose alias no manual host uses as its
/// name or records as the alias it renamed.
pub fn load_all_hosts(manual: Vec<Host>, imported: Vec<Host>) -> (r: Vec<Host>)
    ensures
        hosts_view(r@) == hosts_view(manual@) + unclaimed(hosts_view(manual@), hosts_view(
            imported@,
        )),
{
    let ghost mv = hosts_view(manual@);
    let ghost iv = hosts_view(imported@);
    let mut kept: Vec<Host> = Vec::new();
    let mut i: usize = 0;
    assert(iv.take(0) =~= Seq::<HostView>::empty());
    assert(hosts_view(kept@) =~= Seq::<HostView>::empty());
    while i < imported.len()
        invariant
            i <= imported.len(),
            mv == hosts_view(manual@),
            iv == hosts_view(imported@),
            hosts_view(kept@) == unclaimed(mv, iv.take(i as int)),
        decreases imported.len() - i,
    {
        assert(iv.take(i + 1).drop_last() == iv.take(i as int));
        assert(iv.take(i + 1).last() == iv[i as int]);
        if !is_claimed(&manual, &imported[i].name) {
            let h = imported[i].clone();
            let ghost k0 = kept@;
            kept.push(h);
            assert(hosts_view(kept@) =~= hosts_view(k0).push(h@));
        }
        i = i + 1;
    }
    assert(iv.take(imported.len() as int) == iv);
    let mut all = manual;
    let mut j: usize = 0;
    let ghost a0 = hosts_view(all@);
    let ghost kv = hosts_view(kept@);
    while j < kept.len()
        invariant
            j <= kept.len(),
            kv == hosts_view(kept@),
            hosts_view(all@) == a0 + kv.take(j as int),
        decreases kept.len() - j,
    {
        let h = kept[j].clone();
        let ghost b = all@;
        all.push(h);
        assert(hosts_view(all@) =~= hosts_view(b).push(h@));
        assert(kv.take(j + 1) == kv.take(j as int).push(kv[j as int]));
        j = j + 1;
    }
    assert(kv.take(kept.len() as int) == kv);
    all
}


/// Manual hosts take priority: every imported host kept by the merge is one
/// of the imported hosts, and no manual host uses its alias as a name or
/// records it as the alias it renamed.
pub proof fn lemma_manual_priority(manual: Seq<HostView>, imported: Seq<HostView>)
    ensures
        forall|i: int|
            0 <= i < unclaimed(manual, imported).len() ==> {
                let h = #[trigger] unclaimed(manual, imported)[i];
                &&& !claimed(manual, h.name)
                &&& imported.contains(h)
            },
    decreases imported.len(),
{
    if imported.len() > 0 {
        let i0 = imported.drop_last();
        lemma_manual_priority(manual, i0);
        let u0 = unclaimed(manual, i0);
        let u = unclaimed(manual, imported);
        assert forall|i: int| 0 <= i < u.len() implies {
            let h = #[trigger] u[i];
            &&& !claimed(manual, h.name)
            &&& imported.contains(h)
        } by {
            if i < u0.len() {
                assert(u[i] == u0[i]);
                let j = choose|j: int| 0 <= j < i0.len() && i0[j] == u0[i];
                assert(imported[j] == i0[j]);
            } else {
                assert(u[i] == imported.last());
                assert(imported[imported.len() - 1] == imported.last());
            }
        }
    }
}

} // verus!
