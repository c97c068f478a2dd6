//! The project: the scene description the editor works on.

use crate::ids::new_id;
use crate::object::Object;
use vstd::prelude::*;

verus! {

/// A named, identified list of objects.
#[derive(Clone, Debug)]
pub struct Project {
    pub name: String,
    pub id: u128,
    pub objects: Vec<Object>,
}

impl Project {
    /// An empty project: no name, no objects, a fresh identifier.
    pub fn new() -> (p: Project)
        ensures
            p.name@ == Seq::<char>::empty(),
            p.objects@ == Seq::<Object>::empty(),
    {
        Project { name: String::new(), id: new_id(), objects: Vec::new() }
    }

    /// Append an object to the project.
    pub fn add_object(&mut self, object: Object)
        ensures
            final(self).objects@ == old(self).objects@.push(object),
            final(self).name == old(self).name,
            final(self).id == old(self).id,
    {
        self.objects.push(object)
    }

    /// A mutable borrow of the first object with the given identifier, or
    /// `None` when no object has it.
    pub fn get_object_mut(&mut self, uuid: u128) -> (r: Option<&mut Object>)
        ensures
            match r {
                Some(m) => {
                    &&& exists|i: int|
                        0 <= i < old(self).objects@.len() && old(self).objects@[i].id == uuid
                    &&& {
                        let i = first_with_id(old(self).objects@, uuid);
                        &&& *m == old(self).objects@[i]
                        &&& final(self).objects@ == old(self).objects@.update(i, *final(m))
                    }
                    &&& final(self).name == old(self).name
                    &&& final(self).id == old(self).id
                },
                None => {
                    &&& forall|i: int|
                        0 <= i < old(self).objects@.len() ==> old(self).objects@[i].id != uuid
                    &&& *final(self) == *old(self)
                },
            },
    {
        let n = self.objects.len();
        let mut k: usize = 0;
        while k < n
            invariant
                *self == *old(self),
                n == self.objects@.len(),
                k <= n,
                forall|i: int| 0 <= i < k ==> self.objects@[i].id != uuid,
            decreases n - k,
        {
            if self.objects[k].id == uuid {
                proof {
                    lemma_first_with_id(self.objects@, uuid, k as int);
                }
                return Some(&mut self.objects[k]);
            }
            k = k + 1;
        }
        None
    }
}

/// The index of the first object carrying the given identifier.
pub open spec fn first_with_id(objects: Seq<Object>, uuid: u128) -> int
    decreases objects.len(),
{
    if objects.len() == 0 {
        0
    } else if objects[0].id == uuid {
        0
    } else {
        1 + first_with_id(objects.drop_first(), uuid)
    }
}

proof fn lemma_first_with_id(objects: Seq<Object>, uuid: u128, k: int)
    requires
        0 <= k < objects.len(),
        objects[k].id == uuid,
        forall|i: int| 0 <= i < k ==> objects[i].id != uuid,
    ensures
        first_with_id(objects, uuid) == k,
    decreases objects.len(),
{
    if k > 0 {
        lemma_first_with_id(objects.drop_first(), uuid, k - 1);
    }
}

} // verus!
