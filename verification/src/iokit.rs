//! The power framework behind its three entry points: a named assertion is
//! created, user activity is declared, an assertion is released.
//!
//! The entry points are handed in as functions, so that whoever binds the
//! framework does so in one place and nothing else touches it. Each takes a
//! request as the framework takes it and gives the framework's answer, or
//! `None` where the entry point is not to be found in the framework.

use vstd::prelude::*;
use crate::error::AwakeError;
use crate::power::{
    assertion_level, creation_outcome, creation_result, level_for, release_outcome,
    release_result, Handle,
};

verus! {

/// What a creation came to, by the answer of its entry point: what the
/// status and the id say, or a missing symbol where there was no answer.
pub open spec fn created(answer: Option<(i32, Handle)>) -> Result<Handle, AwakeError> {
    match answer {
        Some((status, id)) => creation_outcome(status, id),
        None => Err(AwakeError::SymbolNotFound),
    }
}

/// What a release came to, by the answer of its entry point: what the status
/// says, or a missing symbol where there was no answer.
pub open spec fn released(answer: Option<u32>) -> Result<(), AwakeError> {
    match answer {
        Some(status) => release_outcome(status),
        None => Err(AwakeError::SymbolNotFound),
    }
}

/// The power framework, as its three entry points.
pub struct IOKit<C, R, D> where
    C: Fn(&str, u32) -> Option<(i32, Handle)>,
    R: Fn(Handle) -> Option<u32>,
    D: Fn(u32) -> Option<(i32, Handle)>,
{
    create: C,
    release: R,
    declare: D,
}

impl<C, R, D> IOKit<C, R, D> where
    C: Fn(&str, u32) -> Option<(i32, Handle)>,
    R: Fn(Handle) -> Option<u32>,
    D: Fn(u32) -> Option<(i32, Handle)>,
{
    /// What every binding is held to: its entry points take every request.
    #[verifier::type_invariant]
    spec fn well_bound(self) -> bool {
        &&& forall|name: &str, level: u32| call_requires(self.create, (name, level))
        &&& forall|id: Handle| call_requires(self.release, (id,))
        &&& forall|level: u32| call_requires(self.declare, (level,))
    }

    /// Whether `answer` is an answer that the framework may give to the
    /// creation of an assertion named `name` at `level`.
    pub closed spec fn creation_answer(
        &self,
        name: &str,
        level: u32,
        answer: Option<(i32, Handle)>,
    ) -> bool {
        call_ensures(self.create, (name, level), answer)
    }

    /// Whether `answer` is an answer that the framework may give to the
    /// release of `id`.
    pub closed spec fn release_answer(&self, id: Handle, answer: Option<u32>) -> bool {
        call_ensures(self.release, (id,), answer)
    }

    /// Whether `answer` is an answer that the framework may give to a
    /// declaration of user activity at `level`.
    pub closed spec fn declaration_answer(&self, level: u32, answer: Option<(i32, Handle)>) -> bool {
        call_ensures(self.declare, (level,), answer)
    }

    /// Binds the framework by its three entry points, each of which is to
    /// take every request. The answers of the binding are those of the
    /// entry points.
    pub fn new(create: C, release: R, declare: D) -> (iokit: Self)
        requires
            forall|name: &str, level: u32| call_requires(create, (name, level)),
            forall|id: Handle| call_requires(release, (id,)),
            forall|level: u32| call_requires(declare, (level,)),
        ensures
            forall|name: &str, level: u32, answer: Option<(i32, Handle)>|
                #[trigger] iokit.creation_answer(name, level, answer) == call_ensures(
                    create,
                    (name, level),
                    answer,
                ),
            forall|id: Handle, answer: Option<u32>|
                #[trigger] iokit.release_answer(id, answer) == call_ensures(release, (id,), answer),
            forall|level: u32, answer: Option<(i32, Handle)>|
                #[trigger] iokit.declaration_answer(level, answer) == call_ensures(
                    declare,
                    (level,),
                    answer,
                ),
    {
        IOKit { create, release, declare }
    }

    /// Asks the framework once for an assertion of the named type, switched
    /// on or off, and reads its answer: the handle where the status is zero,
    /// a creation failure with the status otherwise.
    pub fn create_assertion(
        &self,
        assertion_type: &str,
        state: bool,
    ) -> (r: Result<Handle, AwakeError>)
        ensures
            exists|answer: Option<(i32, Handle)>|
                {
                    &&& #[trigger] self.creation_answer(assertion_type, level_for(state), answer)
                    &&& r == created(answer)
                },
    {
        proof {
            use_type_invariant(self);
        }
        let level: u32 = assertion_level(state);
        let answer = (self.create)(assertion_type, level);
        assert(self.creation_answer(assertion_type, level_for(state), answer));
        match answer {
            Some((status, id)) => creation_result(status, id),
            None => Err(AwakeError::SymbolNotFound),
        }
    }

    /// Asks the framework once to release the assertion, and reads its
    /// answer: success where the assertion was released now or before, a
    /// release failure with the status otherwise.
    pub fn release_assertion(&self, assertion_id: Handle) -> (r: Result<(), AwakeError>)
        ensures
            exists|answer: Option<u32>|
                {
                    &&& #[trigger] self.release_answer(assertion_id, answer)
                    &&& r == released(answer)
                },
    {
        proof {
            use_type_invariant(self);
        }
        let answer = (self.release)(assertion_id);
        assert(self.release_answer(assertion_id, answer));
        match answer {
            Some(status) => release_result(status),
            None => Err(AwakeError::SymbolNotFound),
        }
    }

    /// Declares user activity to the framework once, switched on or off, and
    /// reads its answer as that of a creation.
    pub fn declare_user_activity(&self, state: bool) -> (r: Result<Handle, AwakeError>)
        ensures
            exists|answer: Option<(i32, Handle)>|
                {
                    &&& #[trigger] self.declaration_answer(level_for(state), answer)
                    &&& r == created(answer)
                },
    {
        proof {
            use_type_invariant(self);
        }
        let level: u32 = assertion_level(state);
        let answer = (self.declare)(level);
        assert(self.declaration_answer(level_for(state), answer));
        match answer {
            Some((status, id)) => creation_result(status, id),
            None => Err(AwakeError::SymbolNotFound),
        }
    }
}

} // verus!
