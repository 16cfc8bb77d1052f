//! Consumer-group summaries.
//!
//! A group list merges two sources: the groups registered with the
//! cluster (each with a state and a member count) and the stored offset
//! rows, one per partition with a committed offset.  A group seen only
//! through offsets appears with the placeholder state and one counted
//! offset per row.

use vstd::prelude::*;

use crate::store::Store;

verus! {

/// Summary of one consumer group.
pub struct GroupInfo {
    pub state: String,
    pub members: usize,
    pub stored_offsets: usize,
}

/// The mathematical model of a `GroupInfo`.
pub struct GroupInfoModel {
    pub state: Seq<char>,
    pub members: usize,
    pub stored_offsets: usize,
}

impl View for GroupInfo {
    type V = GroupInfoModel;

    open spec fn view(&self) -> GroupInfoModel {
        GroupInfoModel {
            state: self.state@,
            members: self.members,
            stored_offsets: self.stored_offsets,
        }
    }
}

impl GroupInfo {
    /// A registered group: its reported state and member count, with no
    /// stored offsets counted yet.
    pub fn new(state: String, members: usize) -> (r: GroupInfo)
        ensures
            r@ == (GroupInfoModel { state: state@, members, stored_offsets: 0 }),
    {
        GroupInfo { state, members, stored_offsets: 0 }
    }

    /// A group seen only through stored offsets: the placeholder state,
    /// no members, no offsets counted yet.
    pub fn new_empty() -> (r: GroupInfo)
        ensures
            r@ == (GroupInfoModel { state: "Offsets only"@, members: 0, stored_offsets: 0 }),
    {
        GroupInfo { state: "Offsets only".to_owned(), members: 0, stored_offsets: 0 }
    }

    /// Count one more stored offset row.
    pub fn add_offset(&mut self)
        requires
            old(self).stored_offsets < usize::MAX,
        ensures
            final(self)@ == bump(old(self)@),
    {
        self.stored_offsets = self.stored_offsets + 1;
    }

    /// An owned copy with the same model.
    pub fn duplicate(&self) -> (r: GroupInfo)
        ensures
            r@ == self@,
    {
        GroupInfo {
            state: self.state.clone(),
            members: self.members,
            stored_offsets: self.stored_offsets,
        }
    }
}

/// The same summary with one more stored offset counted.
pub open spec fn bump(g: GroupInfoModel) -> GroupInfoModel {
    GroupInfoModel {
        state: g.state,
        members: g.members,
        stored_offsets: (g.stored_offsets + 1) as usize,
    }
}

/// One group as registered with the cluster.
pub struct RegisteredGroup {
    pub name: String,
    pub state: String,
    pub members: usize,
}

/// The mathematical model of a `RegisteredGroup`.
pub struct RegisteredGroupModel {
    pub name: Seq<char>,
    pub state: Seq<char>,
    pub members: usize,
}

impl View for RegisteredGroup {
    type V = RegisteredGroupModel;

    open spec fn view(&self) -> RegisteredGroupModel {
        RegisteredGroupModel { name: self.name@, state: self.state@, members: self.members }
    }
}

/// The summaries the registered groups alone give rise to; a later
/// registration of the same name wins.
pub open spec fn registered_map(regs: Seq<RegisteredGroupModel>) -> Map<Seq<char>, GroupInfoModel>
    decreases regs.len(),
{
    if regs.len() == 0 {
        Map::empty()
    } else {
        registered_map(regs.drop_last()).insert(
            regs.last().name,
            GroupInfoModel { state: regs.last().state, members: regs.last().members, stored_offsets: 0 },
        )
    }
}

/// The summaries after counting the stored offset rows, in order: a row
/// for a known group bumps its count, a row for an unknown group adds
/// the placeholder summary with one counted offset.
pub open spec fn offsets_applied(
    m: Map<Seq<char>, GroupInfoModel>,
    offs: Seq<Seq<char>>,
) -> Map<Seq<char>, GroupInfoModel>
    decreases offs.len(),
{
    if offs.len() == 0 {
        m
    } else {
        let prev = offsets_applied(m, offs.drop_last());
        let g = offs.last();
        if prev.contains_key(g) {
            prev.insert(g, bump(prev[g]))
        } else {
            prev.insert(
                g,
                GroupInfoModel { state: "Offsets only"@, members: 0, stored_offsets: 1 },
            )
        }
    }
}

/// The full group list for a set of registered groups and offset rows.
pub open spec fn group_list(
    regs: Seq<RegisteredGroupModel>,
    offs: Seq<Seq<char>>,
) -> Map<Seq<char>, GroupInfoModel> {
    offsets_applied(registered_map(regs), offs)
}

/// The association a store of summaries denotes, at the model level.
pub open spec fn summaries(m: Map<Seq<char>, GroupInfo>) -> Map<Seq<char>, GroupInfoModel> {
    m.map_values(|g: GroupInfo| g@)
}

/// Merge the registered groups with the stored offset rows into one
/// summary per group name.
pub fn build_group_list(registered: &Vec<RegisteredGroup>, offsets: &Vec<String>) -> (r: Store<
    GroupInfo,
>)
    ensures
        r.wf(),
        summaries(r@) == group_list(
            registered@.map_values(|g: RegisteredGroup| g@),
            offsets@.map_values(|s: String| s@),
        ),
{
    let ghost regs = registered@.map_values(|g: RegisteredGroup| g@);
    let ghost offs = offsets@.map_values(|s: String| s@);
    let mut groups: Store<GroupInfo> = Store::new();
    proof {
        assert(summaries(groups@) =~= registered_map(regs.take(0)));
    }
    let mut i: usize = 0;
    while i < registered.len()
        invariant
            groups.wf(),
            i <= registered@.len(),
            regs == registered@.map_values(|g: RegisteredGroup| g@),
            summaries(groups@) == registered_map(regs.take(i as int)),
            forall|k: Seq<char>|
                summaries(groups@).contains_key(k) ==> summaries(groups@)[k].stored_offsets == 0,
        decreases registered@.len() - i,
    {
        let rg = &registered[i];
        let info = GroupInfo::new(rg.state.clone(), rg.members);
        let ghost m0 = groups@;
        groups.insert(rg.name.clone(), info);
        proof {
            assert(regs.take(i + 1 as int).drop_last() =~= regs.take(i as int));
            assert(summaries(groups@) =~= summaries(m0).insert(rg.name@, info@));
        }
        i = i + 1;
    }
    proof {
        assert(regs.take(regs.len() as int) =~= regs);
        assert(offs.take(0) =~= Seq::<Seq<char>>::empty());
    }
    let mut j: usize = 0;
    while j < offsets.len()
        invariant
            groups.wf(),
            j <= offsets@.len(),
            offs == offsets@.map_values(|s: String| s@),
            summaries(groups@) == offsets_applied(registered_map(regs), offs.take(j as int)),
            forall|k: Seq<char>|
                summaries(groups@).contains_key(k) ==> summaries(groups@)[k].stored_offsets <= j,
        decreases offsets@.len() - j,
    {
        let name = &offsets[j];
        let ghost m0 = groups@;
        match groups.get(name) {
            Some(g) => {
                proof {
                    assert(summaries(m0).contains_key(name@));
                    assert(summaries(m0)[name@] == g@);
                }
                let mut info = g.duplicate();
                info.add_offset();
                groups.insert(name.clone(), info);
                proof {
                    assert(summaries(groups@) =~= summaries(m0).insert(name@, info@));
                }
            },
            None => {
                let mut info = GroupInfo::new_empty();
                info.add_offset();
                groups.insert(name.clone(), info);
                proof {
                    assert(summaries(groups@) =~= summaries(m0).insert(name@, info@));
                }
            },
        }
        proof {
            assert(offs.take(j + 1 as int).drop_last() =~= offs.take(j as int));
            assert(offs.take(j + 1 as int).last() == name@);
            assert forall|k: Seq<char>| summaries(groups@).contains_key(k) implies summaries(
                groups@,
            )[k].stored_offsets <= j + 1 by {
                if k != name@ {
                    assert(summaries(m0).contains_key(k));
                }
            }
        }
        j = j + 1;
    }
    proof {
        assert(offs.take(offs.len() as int) =~= offs);
    }
    groups
}

} // verus!
