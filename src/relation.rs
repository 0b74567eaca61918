//! Relations with their typed members.

use vstd::prelude::*;

use crate::delta::delta_sum;
use crate::osmformat::{Info, Relation as PbfRelation};
use crate::primitives::min3;
use crate::tags::{normal_pairs, string_get_str, text_at, Tags, TagsData};

verus! {

#[derive(Clone, Copy, Debug, PartialEq, Eq, PartialOrd, Ord, Hash)]
pub struct NodeId(pub i64);

#[derive(Clone, Copy, Debug, PartialEq, Eq, PartialOrd, Ord, Hash)]
pub struct WayId(pub i64);

#[derive(Clone, Copy, Debug, PartialEq, Eq, PartialOrd, Ord, Hash)]
pub struct RelationId(pub i64);

/// A relation read through its block's string table.
#[derive(Clone, Copy, Debug)]
pub struct Relation<'l> {
    pub id: RelationId,
    pub strings: &'l Vec<Vec<u8>>,
    pub roles_sid: &'l [i32],
    pub memids: &'l [i64],
    pub types: &'l [i32],
    pub keys: &'l [u32],
    pub vals: &'l [u32],
    pub info: Info,
}

/// A member of a relation: what it refers to, and its role.
#[derive(Clone, Copy, Debug, PartialEq, Eq)]
pub enum Member<'l> {
    Node(NodeId, &'l str),
    Way(WayId, &'l str),
    Relation(RelationId, &'l str),
}

impl<'l> Member<'l> {
    /// The member as (kind, id, role), the kind as in the `types` array.
    pub open spec fn spec_view(self) -> (i32, i64, Seq<char>) {
        match self {
            Member::Node(id, role) => (0, id.0, role@),
            Member::Way(id, role) => (1, id.0, role@),
            Member::Relation(id, role) => (2, id.0, role@),
        }
    }
}

/// Member `k` as (kind, absolute id, role) when its kind is known and its
/// role is readable text; the id is the running sum of the first `k + 1` deltas.
pub open spec fn member_entry(
    s: Seq<Vec<u8>>,
    roles: Seq<i32>,
    memids: Seq<i64>,
    types: Seq<i32>,
    k: int,
) -> Option<(i32, i64, Seq<char>)> {
    if 0 <= types[k] <= 2 && text_at(s, roles[k] as int) is Some {
        Some((types[k], delta_sum(memids, (k + 1) as nat), text_at(s, roles[k] as int)->0))
    } else {
        None
    }
}

/// The members from `k` up to `n` that iteration yields, in order.
pub open spec fn decoded_members(
    s: Seq<Vec<u8>>,
    roles: Seq<i32>,
    memids: Seq<i64>,
    types: Seq<i32>,
    k: int,
    n: int,
) -> Seq<(i32, i64, Seq<char>)>
    decreases n - k,
{
    if k >= n {
        seq![]
    } else {
        let rest = decoded_members(s, roles, memids, types, k + 1, n);
        match member_entry(s, roles, memids, types, k) {
            Some(e) => seq![e] + rest,
            None => rest,
        }
    }
}

/// The members of a relation, read in order.
#[derive(Clone, Copy, Debug)]
pub struct Members<'l> {
    pub strings: &'l Vec<Vec<u8>>,
    pub roles: &'l [i32],
    pub member_ids: &'l [i64],
    pub member_types: &'l [i32],
    pub pos: usize,
    /// The running sum of the member id deltas before `pos`.
    pub last_id: i64,
}

impl<'l> Members<'l> {
    pub open spec fn len(&self) -> int {
        min3(
            self.roles@.len() as int,
            self.member_ids@.len() as int,
            self.member_types@.len() as int,
        )
    }

    pub open spec fn wf(&self) -> bool {
        &&& self.pos <= self.len()
        &&& self.last_id == delta_sum(self.member_ids@, self.pos as nat)
    }

    /// The members still to come, as (kind, id, role).
    pub open spec fn remaining(&self) -> Seq<(i32, i64, Seq<char>)> {
        decoded_members(
            self.strings@,
            self.roles@,
            self.member_ids@,
            self.member_types@,
            self.pos as int,
            self.len(),
        )
    }

    /// The next member; members of an unknown kind, or whose role is out of
    /// range or not UTF-8, are passed over.
    pub fn next(&mut self) -> (r: Option<Member<'l>>)
        requires
            old(self).wf(),
        ensures
            final(self).wf(),
            old(self).remaining().len() == 0 ==> r is None && final(self).remaining().len() == 0,
            old(self).remaining().len() > 0 ==> r is Some && (r->0).spec_view() == old(
                self,
            ).remaining()[0] && final(self).remaining() == old(self).remaining().drop_first(),
    {
        loop
            invariant
                self.wf(),
                self.strings == old(self).strings,
                self.roles == old(self).roles,
                self.member_ids == old(self).member_ids,
                self.member_types == old(self).member_types,
                self.remaining() == old(self).remaining(),
            decreases self.len() - self.pos,
        {
            let k = self.pos;
            if !(k < self.roles.len() && k < self.member_ids.len() && k < self.member_types.len()) {
                return None;
            }
            let id = self.last_id.wrapping_add(self.member_ids[k]);
            self.last_id = id;
            self.pos = k + 1;
            let t = self.member_types[k];
            if 0 <= t && t <= 2 {
                if let Some(role) = string_get_str(self.strings, self.roles[k] as i64) {
                    if t == 0 {
                        return Some(Member::Node(NodeId(id), role));
                    } else if t == 1 {
                        return Some(Member::Way(WayId(id), role));
                    } else {
                        return Some(Member::Relation(RelationId(id), role));
                    }
                }
            }
        }
    }
}

impl<'l> Relation<'l> {
    pub fn from_pbf(r: &'l PbfRelation, strings: &'l Vec<Vec<u8>>) -> (out: Relation<'l>)
        ensures
            out.id == RelationId(r.id),
            out.strings == strings,
            out.roles_sid@ == r.roles_sid@,
            out.memids@ == r.memids@,
            out.types@ == r.types@,
            out.keys@ == r.keys@,
            out.vals@ == r.vals@,
            out.info == r.info,
    {
        Relation {
            id: RelationId(r.id),
            strings,
            roles_sid: r.roles_sid.as_slice(),
            memids: r.memids.as_slice(),
            types: r.types.as_slice(),
            keys: r.keys.as_slice(),
            vals: r.vals.as_slice(),
            info: r.info,
        }
    }

    /// The relation's members, from the first.
    pub fn members(&self) -> (r: Members<'l>)
        ensures
            r.wf(),
            r.remaining() == decoded_members(
                self.strings@,
                self.roles_sid@,
                self.memids@,
                self.types@,
                0,
                min3(
                    self.roles_sid@.len() as int,
                    self.memids@.len() as int,
                    self.types@.len() as int,
                ),
            ),
    {
        Members {
            strings: self.strings,
            roles: self.roles_sid,
            member_ids: self.memids,
            member_types: self.types,
            pos: 0,
            last_id: 0,
        }
    }

    pub fn tags(&self) -> (r: Tags<'l>)
        ensures
            r.wf(),
            r.s == self.strings,
            r.pairs() == normal_pairs(self.keys@, self.vals@, 0),
    {
        Tags { kv: TagsData::Normal { keys: self.keys, vals: self.vals, pos: 0 }, s: self.strings }
    }
}

} // verus!
