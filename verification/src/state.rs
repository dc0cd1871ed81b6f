//! The checkpoint vector: the fixed-shape machine state exchanged between
//! adjacent slices, plus its field-wise structural utilities.

use vstd::prelude::*;

verus! {

/// The number of scalar fields of a checkpoint vector, the `jops` counter
/// included.
pub const INITIALIZATION_STATE_FIELD_COUNT: usize = 12;

/// The complete machine state at a slice boundary.
///
/// Eleven scalar counters of type `T` plus the control-flow-return counter
/// `jops` of type `U`. The counter is carried unconditionally; whether it
/// accumulates or counts down is decided by the continuation mode flag that
/// the slice orchestrator threads through every component.
///
/// The post-checkpoint of one slice must equal, field for field, the
/// pre-checkpoint of the next; chaining them is the caller's concern.
#[derive(Clone, Copy, Debug, PartialEq, Eq, Structural)]
pub struct InitializationState<T, U> {
    pub eid: T,
    pub fid: T,
    pub iid: T,
    pub frame_id: T,
    pub sp: T,

    pub host_public_inputs: T,
    pub context_in_index: T,
    pub context_out_index: T,
    pub external_host_call_call_index: T,

    pub initial_memory_pages: T,
    pub maximal_memory_pages: T,

    pub jops: U,
}

impl<T> InitializationState<T, T> {
    /// Applies `closure` to every pair of corresponding fields of `self` and
    /// `other`, in field order, stopping at the first error.
    pub fn zip_for_each<V, E, F: Fn(&T, &T) -> Result<V, E>>(
        &self,
        other: &Self,
        closure: F,
    ) -> (r: Result<(), E>)
        requires
            call_requires(closure, (&self.eid, &other.eid)),
            call_requires(closure, (&self.fid, &other.fid)),
            call_requires(closure, (&self.iid, &other.iid)),
            call_requires(closure, (&self.frame_id, &other.frame_id)),
            call_requires(closure, (&self.sp, &other.sp)),
            call_requires(closure, (&self.host_public_inputs, &other.host_public_inputs)),
            call_requires(closure, (&self.context_in_index, &other.context_in_index)),
            call_requires(closure, (&self.context_out_index, &other.context_out_index)),
            call_requires(
                closure,
                (&self.external_host_call_call_index, &other.external_host_call_call_index),
            ),
            call_requires(closure, (&self.initial_memory_pages, &other.initial_memory_pages)),
            call_requires(closure, (&self.maximal_memory_pages, &other.maximal_memory_pages)),
            call_requires(closure, (&self.jops, &other.jops)),
        ensures
            r is Ok ==> {
                &&& exists|v: V| call_ensures(closure, (&self.eid, &other.eid), Ok::<V, E>(v))
                &&& exists|v: V| call_ensures(closure, (&self.fid, &other.fid), Ok::<V, E>(v))
                &&& exists|v: V| call_ensures(closure, (&self.iid, &other.iid), Ok::<V, E>(v))
                &&& exists|v: V| call_ensures(closure, (&self.frame_id, &other.frame_id), Ok::<V, E>(v))
                &&& exists|v: V| call_ensures(closure, (&self.sp, &other.sp), Ok::<V, E>(v))
                &&& exists|v: V|
                    call_ensures(
                        closure,
                        (&self.host_public_inputs, &other.host_public_inputs),
                        Ok::<V, E>(v),
                    )
                &&& exists|v: V|
                    call_ensures(
                        closure,
                        (&self.context_in_index, &other.context_in_index),
                        Ok::<V, E>(v),
                    )
                &&& exists|v: V|
                    call_ensures(
                        closure,
                        (&self.context_out_index, &other.context_out_index),
                        Ok::<V, E>(v),
                    )
                &&& exists|v: V|
                    call_ensures(
                        closure,
                        (
                            &self.external_host_call_call_index,
                            &other.external_host_call_call_index,
                        ),
                        Ok::<V, E>(v),
                    )
                &&& exists|v: V|
                    call_ensures(
                        closure,
                        (&self.initial_memory_pages, &other.initial_memory_pages),
                        Ok::<V, E>(v),
                    )
                &&& exists|v: V|
                    call_ensures(
                        closure,
                        (&self.maximal_memory_pages, &other.maximal_memory_pages),
                        Ok::<V, E>(v),
                    )
                &&& exists|v: V| call_ensures(closure, (&self.jops, &other.jops), Ok::<V, E>(v))
            },
            r matches Err(e) ==> {
                ||| call_ensures(closure, (&self.eid, &other.eid), Err::<V, E>(e))
                ||| call_ensures(closure, (&self.fid, &other.fid), Err::<V, E>(e))
                ||| call_ensures(closure, (&self.iid, &other.iid), Err::<V, E>(e))
                ||| call_ensures(closure, (&self.frame_id, &other.frame_id), Err::<V, E>(e))
                ||| call_ensures(closure, (&self.sp, &other.sp), Err::<V, E>(e))
                ||| call_ensures(
                    closure,
                    (&self.host_public_inputs, &other.host_public_inputs),
                    Err::<V, E>(e),
                )
                ||| call_ensures(
                    closure,
                    (&self.context_in_index, &other.context_in_index),
                    Err::<V, E>(e),
                )
                ||| call_ensures(
                    closure,
                    (&self.context_out_index, &other.context_out_index),
                    Err::<V, E>(e),
                )
                ||| call_ensures(
                    closure,
                    (&self.external_host_call_call_index, &other.external_host_call_call_index),
                    Err::<V, E>(e),
                )
                ||| call_ensures(
                    closure,
                    (&self.initial_memory_pages, &other.initial_memory_pages),
                    Err::<V, E>(e),
                )
                ||| call_ensures(
                    closure,
                    (&self.maximal_memory_pages, &other.maximal_memory_pages),
                    Err::<V, E>(e),
                )
                ||| call_ensures(closure, (&self.jops, &other.jops), Err::<V, E>(e))
            },
    {
        match closure(&self.eid, &other.eid) {
            Ok(_) => {},
            Err(e) => {
                return Err(e);
            },
        }
        match closure(&self.fid, &other.fid) {
            Ok(_) => {},
            Err(e) => {
                return Err(e);
            },
        }
        match closure(&self.iid, &other.iid) {
            Ok(_) => {},
            Err(e) => {
                return Err(e);
            },
        }
        match closure(&self.frame_id, &other.frame_id) {
            Ok(_) => {},
            Err(e) => {
                return Err(e);
            },
        }
        match closure(&self.sp, &other.sp) {
            Ok(_) => {},
            Err(e) => {
                return Err(e);
            },
        }
        match closure(&self.host_public_inputs, &other.host_public_inputs) {
            Ok(_) => {},
            Err(e) => {
                return Err(e);
            },
        }
        match closure(&self.context_in_index, &other.context_in_index) {
            Ok(_) => {},
            Err(e) => {
                return Err(e);
            },
        }
        match closure(&self.context_out_index, &other.context_out_index) {
            Ok(_) => {},
            Err(e) => {
                return Err(e);
            },
        }
        match closure(&self.external_host_call_call_index, &other.external_host_call_call_index) {
            Ok(_) => {},
            Err(e) => {
                return Err(e);
            },
        }
        match closure(&self.initial_memory_pages, &other.initial_memory_pages) {
            Ok(_) => {},
            Err(e) => {
                return Err(e);
            },
        }
        match closure(&self.maximal_memory_pages, &other.maximal_memory_pages) {
            Ok(_) => {},
            Err(e) => {
                return Err(e);
            },
        }
        match closure(&self.jops, &other.jops) {
            Ok(_) => {},
            Err(e) => {
                return Err(e);
            },
        }
        Ok(())
    }
}

impl<T: Copy> InitializationState<T, T> {
    /// The fields as one vector, in field order, `jops` last.
    pub fn plain(&self) -> (r: Vec<T>)
        ensures
            r@ == seq![
                self.eid,
                self.fid,
                self.iid,
                self.frame_id,
                self.sp,
                self.host_public_inputs,
                self.context_in_index,
                self.context_out_index,
                self.external_host_call_call_index,
                self.initial_memory_pages,
                self.maximal_memory_pages,
                self.jops,
            ],
    {
        let mut v: Vec<T> = Vec::new();

        v.push(self.eid);
        v.push(self.fid);
        v.push(self.iid);
        v.push(self.frame_id);
        v.push(self.sp);

        v.push(self.host_public_inputs);
        v.push(self.context_in_index);
        v.push(self.context_out_index);
        v.push(self.external_host_call_call_index);

        v.push(self.initial_memory_pages);
        v.push(self.maximal_memory_pages);

        v.push(self.jops);

        proof {
            assert(v@ =~= seq![
                self.eid,
                self.fid,
                self.iid,
                self.frame_id,
                self.sp,
                self.host_public_inputs,
                self.context_in_index,
                self.context_out_index,
                self.external_host_call_call_index,
                self.initial_memory_pages,
                self.maximal_memory_pages,
                self.jops,
            ]);
        }

        v
    }
}

impl<T, U> InitializationState<T, U> {
    /// How many scalar fields a checkpoint vector has.
    pub fn field_count() -> (r: usize)
        ensures
            r == INITIALIZATION_STATE_FIELD_COUNT,
    {
        INITIALIZATION_STATE_FIELD_COUNT
    }

    /// Applies `f` to every counter field and `g` to the `jops` field,
    /// discarding the results.
    pub fn for_each<V, F: Fn(&T) -> V, G: Fn(&U) -> V>(&self, f: F, g: G)
        requires
            call_requires(f, (&self.eid,)),
            call_requires(f, (&self.fid,)),
            call_requires(f, (&self.iid,)),
            call_requires(f, (&self.frame_id,)),
            call_requires(f, (&self.sp,)),
            call_requires(f, (&self.host_public_inputs,)),
            call_requires(f, (&self.context_in_index,)),
            call_requires(f, (&self.context_out_index,)),
            call_requires(f, (&self.external_host_call_call_index,)),
            call_requires(f, (&self.initial_memory_pages,)),
            call_requires(f, (&self.maximal_memory_pages,)),
            call_requires(g, (&self.jops,)),
    {
        self.map(f, g);
    }

    /// Builds a new checkpoint vector by applying `f` to every counter field
    /// and `g` to the `jops` field.
    pub fn map<V, F: Fn(&T) -> V, G: Fn(&U) -> V>(&self, f: F, g: G) -> (r: InitializationState<
        V,
        V,
    >)
        requires
            call_requires(f, (&self.eid,)),
            call_requires(f, (&self.fid,)),
            call_requires(f, (&self.iid,)),
            call_requires(f, (&self.frame_id,)),
            call_requires(f, (&self.sp,)),
            call_requires(f, (&self.host_public_inputs,)),
            call_requires(f, (&self.context_in_index,)),
            call_requires(f, (&self.context_out_index,)),
            call_requires(f, (&self.external_host_call_call_index,)),
            call_requires(f, (&self.initial_memory_pages,)),
            call_requires(f, (&self.maximal_memory_pages,)),
            call_requires(g, (&self.jops,)),
        ensures
            call_ensures(f, (&self.eid,), r.eid),
            call_ensures(f, (&self.fid,), r.fid),
            call_ensures(f, (&self.iid,), r.iid),
            call_ensures(f, (&self.frame_id,), r.frame_id),
            call_ensures(f, (&self.sp,), r.sp),
            call_ensures(f, (&self.host_public_inputs,), r.host_public_inputs),
            call_ensures(f, (&self.context_in_index,), r.context_in_index),
            call_ensures(f, (&self.context_out_index,), r.context_out_index),
            call_ensures(
                f,
                (&self.external_host_call_call_index,),
                r.external_host_call_call_index,
            ),
            call_ensures(f, (&self.initial_memory_pages,), r.initial_memory_pages),
            call_ensures(f, (&self.maximal_memory_pages,), r.maximal_memory_pages),
            call_ensures(g, (&self.jops,), r.jops),
    {
        InitializationState {
            eid: f(&self.eid),
            fid: f(&self.fid),
            iid: f(&self.iid),
            frame_id: f(&self.frame_id),
            sp: f(&self.sp),

            host_public_inputs: f(&self.host_public_inputs),
            context_in_index: f(&self.context_in_index),
            context_out_index: f(&self.context_out_index),
            external_host_call_call_index: f(&self.external_host_call_call_index),

            initial_memory_pages: f(&self.initial_memory_pages),
            maximal_memory_pages: f(&self.maximal_memory_pages),

            jops: g(&self.jops),
        }
    }
}

impl<T, U, E> InitializationState<Result<T, E>, Result<U, E>> {
    /// Turns a checkpoint vector of results into a result of a checkpoint
    /// vector: `Ok` exactly when every field is `Ok`, otherwise the first
    /// error in field order.
    pub fn transpose(self) -> (r: Result<InitializationState<T, U>, E>)
        ensures
            r is Ok <==> {
                &&& self.eid is Ok
                &&& self.fid is Ok
                &&& self.iid is Ok
                &&& self.frame_id is Ok
                &&& self.sp is Ok
                &&& self.host_public_inputs is Ok
                &&& self.context_in_index is Ok
                &&& self.context_out_index is Ok
                &&& self.external_host_call_call_index is Ok
                &&& self.initial_memory_pages is Ok
                &&& self.maximal_memory_pages is Ok
                &&& self.jops is Ok
            },
            r matches Ok(s) ==> {
                &&& self.eid == Ok::<T, E>(s.eid)
                &&& self.fid == Ok::<T, E>(s.fid)
                &&& self.iid == Ok::<T, E>(s.iid)
                &&& self.frame_id == Ok::<T, E>(s.frame_id)
                &&& self.sp == Ok::<T, E>(s.sp)
                &&& self.host_public_inputs == Ok::<T, E>(s.host_public_inputs)
                &&& self.context_in_index == Ok::<T, E>(s.context_in_index)
                &&& self.context_out_index == Ok::<T, E>(s.context_out_index)
                &&& self.external_host_call_call_index == Ok::<T, E>(
                    s.external_host_call_call_index,
                )
                &&& self.initial_memory_pages == Ok::<T, E>(s.initial_memory_pages)
                &&& self.maximal_memory_pages == Ok::<T, E>(s.maximal_memory_pages)
                &&& self.jops == Ok::<U, E>(s.jops)
            },
            self.eid matches Err(e) ==> r == Err::<InitializationState<T, U>, E>(e),
            self.fid matches Err(e) ==> (self.eid is Ok
                ==> r == Err::<InitializationState<T, U>, E>(e)),
            self.iid matches Err(e) ==> (self.eid is Ok && self.fid is Ok
                ==> r == Err::<InitializationState<T, U>, E>(e)),
            self.frame_id matches Err(e) ==> (self.eid is Ok && self.fid is Ok && self.iid is Ok
                ==> r == Err::<InitializationState<T, U>, E>(e)),
            self.sp matches Err(e) ==> (self.eid is Ok && self.fid is Ok && self.iid is Ok && self.frame_id is Ok
                ==> r == Err::<InitializationState<T, U>, E>(e)),
            self.host_public_inputs matches Err(e) ==> (self.eid is Ok && self.fid is Ok && self.iid is Ok && self.frame_id is Ok && self.sp is Ok
                ==> r == Err::<InitializationState<T, U>, E>(e)),
            self.context_in_index matches Err(e) ==> (self.eid is Ok && self.fid is Ok && self.iid is Ok && self.frame_id is Ok && self.sp is Ok && self.host_public_inputs is Ok
                ==> r == Err::<InitializationState<T, U>, E>(e)),
            self.context_out_index matches Err(e) ==> (self.eid is Ok && self.fid is Ok && self.iid is Ok && self.frame_id is Ok && self.sp is Ok && self.host_public_inputs is Ok && self.context_in_index is Ok
                ==> r == Err::<InitializationState<T, U>, E>(e)),
            self.external_host_call_call_index matches Err(e) ==> (self.eid is Ok && self.fid is Ok && self.iid is Ok && self.frame_id is Ok && self.sp is Ok && self.host_public_inputs is Ok && self.context_in_index is Ok && self.context_out_index is Ok
                ==> r == Err::<InitializationState<T, U>, E>(e)),
            self.initial_memory_pages matches Err(e) ==> (self.eid is Ok && self.fid is Ok && self.iid is Ok && self.frame_id is Ok && self.sp is Ok && self.host_public_inputs is Ok && self.context_in_index is Ok && self.context_out_index is Ok && self.external_host_call_call_index is Ok
                ==> r == Err::<InitializationState<T, U>, E>(e)),
            self.maximal_memory_pages matches Err(e) ==> (self.eid is Ok && self.fid is Ok && self.iid is Ok && self.frame_id is Ok && self.sp is Ok && self.host_public_inputs is Ok && self.context_in_index is Ok && self.context_out_index is Ok && self.external_host_call_call_index is Ok && self.initial_memory_pages is Ok
                ==> r == Err::<InitializationState<T, U>, E>(e)),
            self.jops matches Err(e) ==> (self.eid is Ok && self.fid is Ok && self.iid is Ok && self.frame_id is Ok && self.sp is Ok && self.host_public_inputs is Ok && self.context_in_index is Ok && self.context_out_index is Ok && self.external_host_call_call_index is Ok && self.initial_memory_pages is Ok && self.maximal_memory_pages is Ok
                ==> r == Err::<InitializationState<T, U>, E>(e)),
    {
        let eid = match self.eid {
            Ok(v) => v,
            Err(e) => {
                return Err(e);
            },
        };
        let fid = match self.fid {
            Ok(v) => v,
            Err(e) => {
                return Err(e);
            },
        };
        let iid = match self.iid {
            Ok(v) => v,
            Err(e) => {
                return Err(e);
            },
        };
        let frame_id = match self.frame_id {
            Ok(v) => v,
            Err(e) => {
                return Err(e);
            },
        };
        let sp = match self.sp {
            Ok(v) => v,
            Err(e) => {
                return Err(e);
            },
        };
        let host_public_inputs = match self.host_public_inputs {
            Ok(v) => v,
            Err(e) => {
                return Err(e);
            },
        };
        let context_in_index = match self.context_in_index {
            Ok(v) => v,
            Err(e) => {
                return Err(e);
            },
        };
        let context_out_index = match self.context_out_index {
            Ok(v) => v,
            Err(e) => {
                return Err(e);
            },
        };
        let external_host_call_call_index = match self.external_host_call_call_index {
            Ok(v) => v,
            Err(e) => {
                return Err(e);
            },
        };
        let initial_memory_pages = match self.initial_memory_pages {
            Ok(v) => v,
            Err(e) => {
                return Err(e);
            },
        };
        let maximal_memory_pages = match self.maximal_memory_pages {
            Ok(v) => v,
            Err(e) => {
                return Err(e);
            },
        };
        let jops = match self.jops {
            Ok(v) => v,
            Err(e) => {
                return Err(e);
            },
        };

        Ok(
            InitializationState {
                eid,
                fid,
                iid,
                frame_id,
                sp,
                host_public_inputs,
                context_in_index,
                context_out_index,
                external_host_call_call_index,
                initial_memory_pages,
                maximal_memory_pages,
                jops,
            },
        )
    }
}

impl Default for InitializationState<u32, u64> {
    /// The all-zero machine state, the pre-checkpoint of a run's first slice.
    fn default() -> (r: Self)
        ensures
            r.eid == 0u32,
            r.fid == 0u32,
            r.iid == 0u32,
            r.frame_id == 0u32,
            r.sp == 0u32,
            r.host_public_inputs == 0u32,
            r.context_in_index == 0u32,
            r.context_out_index == 0u32,
            r.external_host_call_call_index == 0u32,
            r.initial_memory_pages == 0u32,
            r.maximal_memory_pages == 0u32,
            r.jops == 0u64,
    {
        InitializationState {
            eid: 0u32,
            fid: 0u32,
            iid: 0u32,
            frame_id: 0u32,
            sp: 0u32,

            host_public_inputs: 0u32,
            context_in_index: 0u32,
            context_out_index: 0u32,
            external_host_call_call_index: 0u32,

            initial_memory_pages: 0u32,
            maximal_memory_pages: 0u32,

            jops: 0u64,
        }
    }
}

} // verus!
