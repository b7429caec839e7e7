//! The store of base images: the rules of `create` and `delete`.
//!
//! The store is modelled as a map from image name to image tree; the file
//! operations themselves are left to the caller, which asks these functions
//! first whether an operation may go ahead.
use vstd::prelude::*;

verus! {

/// Why a store operation was refused.
#[derive(Debug, Clone, Copy, PartialEq, Eq, Structural)]
pub enum StoreError {
    /// An image of that name is already stored.
    AlreadyExists,
    /// No image of that name is stored.
    NotFound,
}

/// How a new image is filled from its source tree.
#[derive(Debug, Clone, Copy, PartialEq, Eq, Structural)]
pub enum Populate {
    /// Rename the source tree into the store (same file system only).
    Move,
    /// Copy the source tree recursively (directories and regular files).
    Copy,
}

/// `create` on a store: refused when the name is taken, else the image is added.
pub open spec fn create_in<T>(images: Map<Seq<char>, T>, name: Seq<char>, tree: T) -> (Map<
    Seq<char>,
    T,
>, Result<(), StoreError>) {
    if images.contains_key(name) {
        (images, Err(StoreError::AlreadyExists))
    } else {
        (images.insert(name, tree), Ok(()))
    }
}

/// `delete` on a store: refused when the name is absent, else the image goes.
pub open spec fn delete_in<T>(images: Map<Seq<char>, T>, name: Seq<char>) -> (Map<Seq<char>, T>, Result<
    (),
    StoreError,
>) {
    if images.contains_key(name) {
        (images.remove(name), Ok(()))
    } else {
        (images, Err(StoreError::NotFound))
    }
}

/// Whether `create` may go ahead, and how the image is filled.
pub fn plan_create(exists: bool, move_mode: bool) -> (r: Result<Populate, StoreError>)
    ensures
        exists ==> r == Err::<Populate, StoreError>(StoreError::AlreadyExists),
        !exists && move_mode ==> r == Ok::<Populate, StoreError>(Populate::Move),
        !exists && !move_mode ==> r == Ok::<Populate, StoreError>(Populate::Copy),
{
    if exists {
        Err(StoreError::AlreadyExists)
    } else if move_mode {
        Ok(Populate::Move)
    } else {
        Ok(Populate::Copy)
    }
}

/// Whether `delete` may go ahead.
pub fn plan_delete(exists: bool) -> (r: Result<(), StoreError>)
    ensures
        exists ==> r == Ok::<(), StoreError>(()),
        !exists ==> r == Err::<(), StoreError>(StoreError::NotFound),
{
    if exists {
        Ok(())
    } else {
        Err(StoreError::NotFound)
    }
}

/// A second `create` of a name right after a successful one fails with
/// "already exists" and leaves the first image as it was.
pub proof fn lemma_create_twice_fails<T>(images: Map<Seq<char>, T>, name: Seq<char>, src: T, src2: T)
    requires
        create_in(images, name, src).1 is Ok,
    ensures
        ({
            let first = create_in(images, name, src).0;
            let second = create_in(first, name, src2);
            &&& second.1 == Err::<(), StoreError>(StoreError::AlreadyExists)
            &&& second.0 == first
            &&& second.0[name] == src
        }),
{
}

/// `delete` of an absent name fails and changes nothing; of a present one,
/// the image is gone afterwards and the others stay.
pub proof fn lemma_delete_removes_or_refuses<T>(images: Map<Seq<char>, T>, name: Seq<char>)
    ensures
        !images.contains_key(name) ==> delete_in(images, name) == (
            images,
            Err::<(), StoreError>(StoreError::NotFound),
        ),
        images.contains_key(name) ==> {
            &&& delete_in(images, name).1 is Ok
            &&& !delete_in(images, name).0.contains_key(name)
            &&& forall|k: Seq<char>|
                k != name && #[trigger] images.contains_key(k) ==> delete_in(images, name).0.contains_key(k)
        },
{
}

} // verus!
